//! The resolver's guarantees, stated and proved over the specification
//! functions that the executable contracts use.

use vstd::prelude::*;

use crate::cache::lemma_find_matches;
use crate::cache::lemma_find_push;
use crate::cache::lemma_merge_keeps_found;
use crate::cache::spec_find;
use crate::cache::spec_merge;
use crate::coord::same_location;
use crate::coord::Coord;
use crate::resolver::lemma_miss_index;
use crate::resolver::spec_misses;
use crate::resolver::spec_resolved_altitude;
use crate::resolver::spec_response;

verus! {

/// Order and count preservation: the response has exactly one entry per
/// requested coordinate, in request order, and each entry carries the
/// request's own latitude and longitude — duplicates included.
pub proof fn lemma_response_preserves_order(req: Seq<Coord>, records: Seq<Coord>, fetched: Seq<Coord>)
    ensures
        spec_response(req, records, fetched).len() == req.len(),
        forall|i: int|
            0 <= i < req.len() ==> #[trigger] spec_response(req, records, fetched)[i].latitude
                == req[i].latitude && spec_response(req, records, fetched)[i].longitude
                == req[i].longitude,
{
}

/// Cache short-circuit: when every requested coordinate round-matches a
/// cached record there are no misses, so the resolver completes from
/// cache alone and no transport step happens.
pub proof fn lemma_all_hits_no_misses(req: Seq<Coord>, records: Seq<Coord>)
    requires
        forall|i: int| 0 <= i < req.len() ==> #[trigger] spec_find(records, req[i]) is Some,
    ensures
        spec_misses(req, records).len() == 0,
    decreases req.len(),
{
    if req.len() > 0 {
        let front = req.drop_last();
        assert forall|i: int| 0 <= i < front.len() implies #[trigger] spec_find(records, front[i])
            is Some by {
            assert(front[i] == req[i]);
        }
        lemma_all_hits_no_misses(front, records);
        assert(spec_find(records, req.last()) is Some);
    }
}

/// Rounding equality: two coordinates whose rounded six-decimal keys
/// coincide are resolved by the very same cache record, so a lookup for
/// either hits whatever record serves the other.
pub proof fn lemma_same_location_same_record(records: Seq<Coord>, a: Coord, b: Coord)
    requires
        same_location(a, b),
    ensures
        spec_find(records, a) == spec_find(records, b),
    decreases records.len(),
{
    if records.len() > 0 && !same_location(records[0], a) {
        lemma_same_location_same_record(records.drop_first(), a, b);
    }
}

/// A candidate that some fetched record round-matches is resolved by the
/// merged record set, with the altitude `a` carries, provided every
/// matching fetched record and any pre-existing match agree with `a`.
proof fn lemma_merge_resolves(cur: Seq<Coord>, fetched: Seq<Coord>, x: Coord, a: Coord)
    requires
        same_location(a, x),
        spec_find(cur, x) matches Some(r) ==> r.altitude == a.altitude,
        spec_find(cur, x) is Some || exists|j: int|
            0 <= j < fetched.len() && same_location(#[trigger] fetched[j], x),
        forall|j: int|
            0 <= j < fetched.len() && same_location(#[trigger] fetched[j], x)
                ==> fetched[j].altitude == a.altitude,
    ensures
        spec_find(spec_merge(cur, fetched), x) matches Some(r) && same_location(r, x)
            && r.altitude == a.altitude,
    decreases fetched.len(),
{
    if fetched.len() == 0 {
        lemma_find_matches(cur, x);
    } else {
        let f0 = fetched[0];
        let next = if spec_find(cur, f0) is Some {
            cur
        } else {
            cur.push(f0)
        };
        lemma_find_push(cur, f0, x);
        let rest = fetched.drop_first();
        assert(forall|j: int| 0 <= j < rest.len() ==> #[trigger] rest[j] == fetched[j + 1]);
        if spec_find(next, x) is None {
            // then the set had no match and the first fetched record is
            // no match either, so the witness lies further along
            if same_location(f0, x) {
                lemma_same_location_same_record(cur, f0, x);
                assert(false);
            }
            let j: int = choose|j: int| 0 <= j < fetched.len() && same_location(#[trigger] fetched[j], x);
            assert(j >= 1);
            assert(same_location(rest[j - 1], x));
        }
        lemma_merge_resolves(next, rest, x, a);
    }
}

/// Idempotence: once a successful resolve has merged its fetched records
/// into the cache, resolving the same batch again misses nothing — so
/// the second call makes no transport step — and owes the very same
/// response. This holds when the fetched records round-match the missed
/// coordinates positionally and round-matching fetched records agree on
/// altitude, as a well-behaved elevation service guarantees.
pub proof fn lemma_resolve_idempotent(req: Seq<Coord>, records: Seq<Coord>, fetched: Seq<Coord>)
    requires
        fetched.len() == spec_misses(req, records).len(),
        forall|j: int|
            0 <= j < fetched.len() ==> same_location(
                #[trigger] fetched[j],
                spec_misses(req, records)[j],
            ),
        forall|j: int, k: int|
            0 <= j < fetched.len() && 0 <= k < fetched.len() && same_location(
                #[trigger] fetched[j],
                #[trigger] fetched[k],
            ) ==> fetched[j].altitude == fetched[k].altitude,
    ensures
        spec_misses(req, spec_merge(records, fetched)).len() == 0,
        spec_response(req, spec_merge(records, fetched), Seq::<Coord>::empty()) == spec_response(
            req,
            records,
            fetched,
        ),
{
    let merged = spec_merge(records, fetched);
    assert forall|i: int| 0 <= i < req.len() implies #[trigger] spec_find(merged, req[i])
        matches Some(r) && r.altitude == spec_resolved_altitude(req, records, fetched, i) by {
        match spec_find(records, req[i]) {
            Some(hit) => {
                lemma_merge_keeps_found(records, fetched, req[i]);
            },
            None => {
                lemma_miss_index(req, records, i);
                let mi: int = spec_misses(req.take(i), records).len() as int;
                assert(same_location(fetched[mi], req[i]));
                assert forall|j: int|
                    0 <= j < fetched.len() && same_location(#[trigger] fetched[j], req[i])
                        implies fetched[j].altitude == fetched[mi].altitude by {
                    assert(same_location(fetched[j], fetched[mi]));
                }
                lemma_merge_resolves(records, fetched, req[i], fetched[mi]);
            },
        }
    }
    lemma_all_hits_no_misses(req, merged);
    assert(spec_response(req, merged, Seq::<Coord>::empty()) =~= spec_response(
        req,
        records,
        fetched,
    ));
}

} // verus!
