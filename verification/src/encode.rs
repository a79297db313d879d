//! Wire encodings for the remote elevation lookup.
//!
//! Coordinates travel in ASCII decimal degrees. A nano-degree value is
//! rendered as its whole-degree part, then, when the fractional part is
//! not zero, a dot and the fraction with trailing zeros trimmed. A batch
//! goes out either as the compact delimited form `lat,lon|lat,lon|...`
//! (query transport) or as a JSON body `{"locations":[...]}` (body
//! transport); the query transport is chosen exactly when the delimited
//! form fits in 1024 bytes, decided before any network call. Responses
//! arrive wrapped in a fixed `{"results":` ... `}` envelope.

use vstd::prelude::*;

use crate::coord::all_valid;
use crate::coord::Coord;

verus! {

/// The ASCII digit for a value between 0 and 9.
pub open spec fn digit_byte(d: int) -> u8 {
    (48 + d) as u8
}

/// The decimal digits of `m`, most significant first, no leading zeros
/// (a single `0` for zero).
pub open spec fn spec_digits(m: nat) -> Seq<u8>
    decreases m,
{
    if m < 10 {
        seq![digit_byte(m as int)]
    } else {
        spec_digits(m / 10).push(digit_byte((m % 10) as int))
    }
}

/// The low `places` decimal digits of `f`, zero-padded on the left.
pub open spec fn spec_padded(f: nat, places: nat) -> Seq<u8>
    decreases places,
{
    if places == 0 {
        Seq::empty()
    } else {
        spec_padded(f / 10, (places - 1) as nat).push(digit_byte((f % 10) as int))
    }
}

/// The low `places` decimal digits of `f` with trailing zeros trimmed.
pub open spec fn spec_fraction(f: nat, places: nat) -> Seq<u8>
    decreases places,
{
    if places == 0 {
        Seq::empty()
    } else if f % 10 == 0 {
        spec_fraction(f / 10, (places - 1) as nat)
    } else {
        spec_padded(f, places)
    }
}

/// A non-negative nano-degree magnitude in decimal: whole degrees, then
/// a dot and the trimmed nine-place fraction when it is not zero.
pub open spec fn spec_nano_mag(m: nat) -> Seq<u8> {
    spec_digits(m / 1_000_000_000) + if m % 1_000_000_000 == 0 {
        Seq::<u8>::empty()
    } else {
        seq![46u8] + spec_fraction(m % 1_000_000_000, 9)  // '.'
    }
}

/// A signed nano-degree value in ASCII decimal degrees.
pub open spec fn spec_nano(n: int) -> Seq<u8> {
    if n < 0 {
        seq![45u8] + spec_nano_mag((-n) as nat)  // '-'
    } else {
        spec_nano_mag(n as nat)
    }
}

/// One coordinate in the delimited form: `latitude,longitude`.
pub open spec fn spec_coord_form(c: Coord) -> Seq<u8> {
    spec_nano(c.latitude as int) + seq![44u8] + spec_nano(c.longitude as int)  // ','
}

/// A batch in the delimited form, coordinates separated by `|`.
pub open spec fn spec_batch_form(s: Seq<Coord>) -> Seq<u8>
    decreases s.len(),
{
    if s.len() == 0 {
        Seq::empty()
    } else if s.len() == 1 {
        spec_coord_form(s[0])
    } else {
        spec_batch_form(s.drop_last()) + seq![124u8] + spec_coord_form(s.last())  // '|'
    }
}

/// Appends the decimal digits of `m`.
fn push_digits(out: &mut Vec<u8>, m: u64)
    ensures
        final(out)@ == old(out)@ + spec_digits(m as nat),
    decreases m,
{
    if m < 10 {
        out.push(48 + m as u8);
    } else {
        push_digits(out, m / 10);
        out.push(48 + (m % 10) as u8);
    }
    assert(out@ =~= old(out)@ + spec_digits(m as nat));
}

/// Appends the low `places` digits of `f`, zero-padded.
fn push_padded(out: &mut Vec<u8>, f: u64, places: u64)
    ensures
        final(out)@ == old(out)@ + spec_padded(f as nat, places as nat),
    decreases places,
{
    if places > 0 {
        push_padded(out, f / 10, places - 1);
        out.push(48 + (f % 10) as u8);
    }
    assert(out@ =~= old(out)@ + spec_padded(f as nat, places as nat));
}

/// Appends the low `places` digits of `f` with trailing zeros trimmed.
fn push_fraction(out: &mut Vec<u8>, f: u64, places: u64)
    ensures
        final(out)@ == old(out)@ + spec_fraction(f as nat, places as nat),
    decreases places,
{
    if places == 0 {
    } else if f % 10 == 0 {
        push_fraction(out, f / 10, places - 1);
    } else {
        push_padded(out, f, places);
    }
    assert(out@ =~= old(out)@ + spec_fraction(f as nat, places as nat));
}

/// Appends a signed nano-degree value in ASCII decimal degrees.
fn push_nano(out: &mut Vec<u8>, n: i64)
    requires
        -180_000_000_000 <= n <= 180_000_000_000,
    ensures
        final(out)@ == old(out)@ + spec_nano(n as int),
{
    let m: u64 = if n < 0 {
        out.push(45);  // '-'
        (-n) as u64
    } else {
        n as u64
    };
    push_digits(out, m / 1_000_000_000);
    let frac: u64 = m % 1_000_000_000;
    if frac != 0 {
        out.push(46);  // '.'
        push_fraction(out, frac, 9);
    }
    assert(out@ =~= old(out)@ + spec_nano(n as int));
}

impl Coord {
    /// This coordinate in the style required for the query form:
    /// `latitude,longitude` in decimal degrees.
    pub fn get_form(&self) -> (r: Vec<u8>)
        requires
            self.valid(),
        ensures
            r@ == spec_coord_form(*self),
    {
        let mut out: Vec<u8> = Vec::new();
        push_nano(&mut out, self.latitude);
        out.push(44);  // ','
        push_nano(&mut out, self.longitude);
        assert(out@ =~= spec_coord_form(*self));
        out
    }
}

/// The whole batch in the delimited query form, `|`-separated.
pub fn batch_form(coords: &Vec<Coord>) -> (r: Vec<u8>)
    requires
        all_valid(coords@),
    ensures
        r@ == spec_batch_form(coords@),
{
    let mut out: Vec<u8> = Vec::new();
    let mut i: usize = 0;
    assert(coords@.take(0) =~= Seq::<Coord>::empty());
    while i < coords.len()
        invariant
            0 <= i <= coords.len(),
            all_valid(coords@),
            out@ == spec_batch_form(coords@.take(i as int)),
        decreases coords.len() - i,
    {
        if i > 0 {
            out.push(124);  // '|'
        }
        push_nano(&mut out, coords[i].latitude);
        out.push(44);  // ','
        push_nano(&mut out, coords[i].longitude);
        proof {
            let t = coords@.take(i as int + 1);
            assert(t.drop_last() =~= coords@.take(i as int));
            assert(t.last() == coords@[i as int]);
            assert(out@ =~= spec_batch_form(t));
        }
        i = i + 1;
    }
    assert(coords@.take(coords.len() as int) =~= coords@);
    out
}

/// The two ways a batch can be sent to the remote service.
#[derive(Clone, Copy, PartialEq, Eq, Structural, Debug)]
pub enum Transport {
    /// Compact delimited list in a query parameter.
    Query,
    /// Structured JSON body.
    Body,
}

/// Chooses the compact query transport exactly when the batch's delimited
/// form fits in 1024 bytes, and the structured body transport otherwise.
/// The decision is made before any network call.
pub fn select_transport(coords: &Vec<Coord>) -> (t: Transport)
    requires
        all_valid(coords@),
    ensures
        t == Transport::Query <==> spec_batch_form(coords@).len() <= 1024,
{
    let form = batch_form(coords);
    if form.len() <= 1024 {
        Transport::Query
    } else {
        Transport::Body
    }
}

/// One coordinate as a JSON object for the body transport:
/// `{"latitude":<lat>,"longitude":<lon>}`.
pub open spec fn spec_location_object(c: Coord) -> Seq<u8> {
    seq![123u8, 34u8, 108u8, 97u8, 116u8, 105u8, 116u8, 117u8, 100u8, 101u8, 34u8, 58u8]  // {"latitude":
        + spec_nano(c.latitude as int)
        + seq![44u8, 34u8, 108u8, 111u8, 110u8, 103u8, 105u8, 116u8, 117u8, 100u8, 101u8, 34u8, 58u8]  // ,"longitude":
        + spec_nano(c.longitude as int) + seq![125u8]  // }
}

/// The JSON array of location objects, comma separated.
pub open spec fn spec_locations_array(s: Seq<Coord>) -> Seq<u8>
    decreases s.len(),
{
    if s.len() == 0 {
        Seq::empty()
    } else if s.len() == 1 {
        spec_location_object(s[0])
    } else {
        spec_locations_array(s.drop_last()) + seq![44u8] + spec_location_object(s.last())  // ','
    }
}

/// The full body-transport payload: `{"locations":[...]}`.
pub open spec fn spec_post_body(s: Seq<Coord>) -> Seq<u8> {
    seq![123u8, 34u8, 108u8, 111u8, 99u8, 97u8, 116u8, 105u8, 111u8, 110u8, 115u8, 34u8, 58u8, 91u8]  // {"locations":[
        + spec_locations_array(s) + seq![93u8, 125u8]  // ]}
}

/// Appends one coordinate's JSON location object.
#[verifier::rlimit(50)]
fn push_location_object(out: &mut Vec<u8>, c: &Coord)
    requires
        c.valid(),
    ensures
        final(out)@ == old(out)@ + spec_location_object(*c),
{
    out.push(123);  // '{'
    out.push(34);  // '"'
    out.push(108);  // 'l'
    out.push(97);  // 'a'
    out.push(116);  // 't'
    out.push(105);  // 'i'
    out.push(116);  // 't'
    out.push(117);  // 'u'
    out.push(100);  // 'd'
    out.push(101);  // 'e'
    out.push(34);  // '"'
    out.push(58);  // ':'
    assert(out@ =~= old(out)@ + seq![
        123u8, 34u8, 108u8, 97u8, 116u8, 105u8, 116u8, 117u8, 100u8, 101u8, 34u8, 58u8,
    ]);
    push_nano(out, c.latitude);
    let ghost with_lat = out@;
    out.push(44);  // ','
    out.push(34);  // '"'
    out.push(108);  // 'l'
    out.push(111);  // 'o'
    out.push(110);  // 'n'
    out.push(103);  // 'g'
    out.push(105);  // 'i'
    out.push(116);  // 't'
    out.push(117);  // 'u'
    out.push(100);  // 'd'
    out.push(101);  // 'e'
    out.push(34);  // '"'
    out.push(58);  // ':'
    assert(out@ =~= with_lat + seq![
        44u8, 34u8, 108u8, 111u8, 110u8, 103u8, 105u8, 116u8, 117u8, 100u8, 101u8, 34u8, 58u8,
    ]);
    push_nano(out, c.longitude);
    out.push(125);  // '}'
    assert(out@ =~= old(out)@ + spec_location_object(*c));
}

/// The body-transport payload for the batch.
pub fn post_body(coords: &Vec<Coord>) -> (r: Vec<u8>)
    requires
        all_valid(coords@),
    ensures
        r@ == spec_post_body(coords@),
{
    let mut out: Vec<u8> = Vec::new();
    out.push(123);  // '{'
    out.push(34);  // '"'
    out.push(108);  // 'l'
    out.push(111);  // 'o'
    out.push(99);  // 'c'
    out.push(97);  // 'a'
    out.push(116);  // 't'
    out.push(105);  // 'i'
    out.push(111);  // 'o'
    out.push(110);  // 'n'
    out.push(115);  // 's'
    out.push(34);  // '"'
    out.push(58);  // ':'
    out.push(91);  // '['
    let ghost head = out@;
    let mut i: usize = 0;
    assert(coords@.take(0) =~= Seq::<Coord>::empty());
    while i < coords.len()
        invariant
            0 <= i <= coords.len(),
            all_valid(coords@),
            out@ == head + spec_locations_array(coords@.take(i as int)),
        decreases coords.len() - i,
    {
        if i > 0 {
            out.push(44);  // ','
        }
        push_location_object(&mut out, &coords[i]);
        proof {
            let t = coords@.take(i as int + 1);
            assert(t.drop_last() =~= coords@.take(i as int));
            assert(t.last() == coords@[i as int]);
            assert(out@ =~= head + spec_locations_array(t));
        }
        i = i + 1;
    }
    out.push(93);  // ']'
    out.push(125);  // '}'
    assert(coords@.take(coords.len() as int) =~= coords@);
    assert(out@ =~= spec_post_body(coords@));
    out
}

/// The fixed envelope prefix the remote service wraps results in:
/// `{"results":`.
pub open spec fn spec_envelope_prefix() -> Seq<u8> {
    seq![123u8, 34u8, 114u8, 101u8, 115u8, 117u8, 108u8, 116u8, 115u8, 34u8, 58u8]
}

/// Strips the fixed `{"results":` ... `}` envelope from a raw response
/// payload, or reports a malformed envelope with `None`.
pub fn strip_envelope(raw: &Vec<u8>) -> (r: Option<Vec<u8>>)
    ensures
        r is Some <==> (raw@.len() >= 12 && raw@.take(11) == spec_envelope_prefix() && raw@[raw@.len()
            - 1] == 125),
        r matches Some(p) ==> p@ == raw@.subrange(11, raw@.len() - 1),
{
    if raw.len() < 12 {
        return None;
    }
    let mut k: usize = 0;
    let expected: [u8; 11] = [123, 34, 114, 101, 115, 117, 108, 116, 115, 34, 58];
    while k < 11
        invariant
            0 <= k <= 11,
            raw@.len() >= 12,
            forall|q: int| 0 <= q < k ==> raw@[q] == spec_envelope_prefix()[q],
            expected@ == spec_envelope_prefix(),
        decreases 11 - k,
    {
        if raw[k] != expected[k] {
            assert(raw@.take(11)[k as int] != spec_envelope_prefix()[k as int]);
            return None;
        }
        k = k + 1;
    }
    if raw[raw.len() - 1] != 125 {
        return None;
    }
    assert(raw@.take(11) =~= spec_envelope_prefix());
    let mut out: Vec<u8> = Vec::new();
    let mut i: usize = 11;
    while i < raw.len() - 1
        invariant
            11 <= i <= raw@.len() - 1,
            out@ == raw@.subrange(11, i as int),
        decreases raw@.len() - i,
    {
        out.push(raw[i]);
        assert(out@ =~= raw@.subrange(11, i as int + 1));
        i = i + 1;
    }
    Some(out)
}

} // verus!
