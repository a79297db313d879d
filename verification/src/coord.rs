//! The coordinate value type and its rounding rules.
//!
//! Latitude and longitude are stored in nano-degrees (billionths of a
//! degree), altitude in millimetres. Cache matching rounds latitude and
//! longitude to whole micro-degrees (six decimal places of a degree, the
//! precision of the remote elevation service); two coordinates are "the
//! same location" exactly when both rounded values agree.

use vstd::prelude::*;

verus! {

/// A geographical coordinate of planet Earth.
///
/// `latitude` and `longitude` are in nano-degrees, `altitude` in
/// millimetres above sea level.
#[derive(Clone, Copy, PartialEq, Eq, Structural, Debug)]
pub struct Coord {
    /// y, in nano-degrees; valid range is -90 to 90 degrees
    pub latitude: i64,
    /// x, in nano-degrees; valid range is -180 to 180 degrees
    pub longitude: i64,
    /// elevation above sea level, in millimetres; 0 until resolved
    pub altitude: i64,
}

/// A latitude or longitude outside its permitted range.
#[derive(Clone, Copy, PartialEq, Eq, Structural, Debug)]
pub struct ValidationError;

/// Rounds a nano-degree value to whole micro-degrees, halves away from zero.
pub open spec fn round_to_micro(nano: int) -> int {
    if nano >= 0 {
        (nano + 500) / 1000
    } else {
        -((500 - nano) / 1000)
    }
}

/// The cache-matching rule: latitude and longitude agree after rounding
/// each to micro-degrees (six decimal places).
pub open spec fn same_location(a: Coord, b: Coord) -> bool {
    &&& round_to_micro(a.latitude as int) == round_to_micro(b.latitude as int)
    &&& round_to_micro(a.longitude as int) == round_to_micro(b.longitude as int)
}

impl Coord {
    /// Latitude within -90..=90 degrees and longitude within -180..=180
    /// degrees, in nano-degrees.
    pub open spec fn valid(self) -> bool {
        &&& -90_000_000_000 <= self.latitude <= 90_000_000_000
        &&& -180_000_000_000 <= self.longitude <= 180_000_000_000
    }

    /// Constructs a coordinate with altitude 0, rejecting a latitude or
    /// longitude outside its range.
    pub fn new(latitude: i64, longitude: i64) -> (r: Result<Self, ValidationError>)
        ensures
            r is Ok <==> (Coord { latitude, longitude, altitude: 0 }).valid(),
            r matches Ok(c) ==> c == (Coord { latitude, longitude, altitude: 0 }),
    {
        if -90_000_000_000 <= latitude && latitude <= 90_000_000_000
            && -180_000_000_000 <= longitude && longitude <= 180_000_000_000 {
            Ok(Coord { latitude, longitude, altitude: 0 })
        } else {
            Err(ValidationError)
        }
    }

    /// A copy of `self` with `altitude` replaced; the receiver is untouched.
    pub fn with_altitude(&self, altitude: i64) -> (r: Self)
        ensures
            r == (Coord { altitude, ..*self }),
    {
        Coord { altitude, ..*self }
    }

    /// Whether latitude and longitude are within their permitted ranges.
    pub fn is_valid(&self) -> (r: bool)
        ensures
            r == self.valid(),
    {
        -90_000_000_000 <= self.latitude && self.latitude <= 90_000_000_000
            && -180_000_000_000 <= self.longitude && self.longitude <= 180_000_000_000
    }
}

impl Default for Coord {
    /// The origin coordinate with altitude 0.
    fn default() -> (r: Self)
        ensures
            r == (Coord { latitude: 0, longitude: 0, altitude: 0 }),
    {
        Coord { latitude: 0, longitude: 0, altitude: 0 }
    }
}

/// Rounds a nano-degree value to whole micro-degrees, halves away from zero.
pub fn round_to_micro_i64(nano: i64) -> (r: i64)
    requires
        -180_000_000_000 <= nano <= 180_000_000_000,
    ensures
        r == round_to_micro(nano as int),
{
    if nano >= 0 {
        let q: u64 = (nano as u64 + 500) / 1000;
        q as i64
    } else {
        let q: u64 = ((-nano) as u64 + 500) / 1000;
        -(q as i64)
    }
}

/// Rounding to micro-degrees is idempotent: a value already at the
/// service's six-decimal precision rounds to itself, so a record stored
/// at that precision round-matches every coordinate that rounds to it.
pub proof fn lemma_round_idempotent(nano: int)
    requires
        -180_000_000_000 <= nano <= 180_000_000_000,
    ensures
        round_to_micro(round_to_micro(nano) * 1000) == round_to_micro(nano),
{
    if nano >= 0 {
        let m = (nano + 500) / 1000;
        assert(m >= 0);
        assert((m * 1000 + 500) / 1000 == m) by (nonlinear_arith)
            requires
                m >= 0,
        ;
    } else {
        let m = (500 - nano) / 1000;
        assert(m >= 0);
        if m == 0 {
            assert(round_to_micro(0) == 0);
        } else {
            assert((m * 1000 + 500) / 1000 == m) by (nonlinear_arith)
                requires
                    m > 0,
            ;
        }
    }
}

/// Every coordinate of the sequence has latitude and longitude in range.
pub open spec fn all_valid(s: Seq<Coord>) -> bool {
    forall|i: int| 0 <= i < s.len() ==> s[i].valid()
}

/// Whether every coordinate of the batch is within range.
pub fn check_all_valid(coords: &Vec<Coord>) -> (r: bool)
    ensures
        r == all_valid(coords@),
{
    let mut i: usize = 0;
    while i < coords.len()
        invariant
            0 <= i <= coords.len(),
            forall|k: int| 0 <= k < i ==> coords@[k].valid(),
        decreases coords.len() - i,
    {
        if !coords[i].is_valid() {
            assert(!coords@[i as int].valid());
            return false;
        }
        i = i + 1;
    }
    true
}

/// Whether two coordinates round-match to the same cache location.
pub fn matches_location(a: &Coord, b: &Coord) -> (r: bool)
    requires
        a.valid(),
        b.valid(),
    ensures
        r == same_location(*a, *b),
{
    let lat_match = round_to_micro_i64(a.latitude) == round_to_micro_i64(b.latitude);
    let lon_match = round_to_micro_i64(a.longitude) == round_to_micro_i64(b.longitude);
    lat_match && lon_match
}

} // verus!
