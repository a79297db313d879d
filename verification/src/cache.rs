//! The cache record set: lookup by rounded location and first-seen-wins
//! merging of freshly fetched records.
//!
//! The store is a set of resolved coordinates, addressed by the rounded
//! (latitude, longitude) pair. Loading and persisting the set is left to
//! the caller; this module works on the in-memory record sequence alone.

use vstd::prelude::*;

use crate::coord::all_valid;
use crate::coord::matches_location;
use crate::coord::same_location;
use crate::coord::Coord;

verus! {

/// The first record of `records` that round-matches `c`, if any.
pub open spec fn spec_find(records: Seq<Coord>, c: Coord) -> Option<Coord>
    decreases records.len(),
{
    if records.len() == 0 {
        None
    } else if same_location(records[0], c) {
        Some(records[0])
    } else {
        spec_find(records.drop_first(), c)
    }
}

/// `records` extended with each fetched record in turn, skipping any
/// whose rounded location is already present (first seen wins).
pub open spec fn spec_merge(records: Seq<Coord>, fetched: Seq<Coord>) -> Seq<Coord>
    decreases fetched.len(),
{
    if fetched.len() == 0 {
        records
    } else {
        let next = if spec_find(records, fetched[0]) is Some {
            records
        } else {
            records.push(fetched[0])
        };
        spec_merge(next, fetched.drop_first())
    }
}

/// No two stored records round-collide: each rounded location occurs once.
pub open spec fn spec_distinct_locations(records: Seq<Coord>) -> bool {
    forall|i: int, j: int|
        0 <= i < records.len() && 0 <= j < records.len() && i != j
            ==> !same_location(records[i], records[j])
}

/// Returns the first stored record whose rounded (latitude, longitude)
/// equals the candidate's rounded (latitude, longitude), or `None`.
pub fn find(candidate: &Coord, records: &Vec<Coord>) -> (r: Option<Coord>)
    requires
        candidate.valid(),
        all_valid(records@),
    ensures
        r == spec_find(records@, *candidate),
{
    let ghost all = records@;
    assert(all.skip(0) =~= all);
    let mut i: usize = 0;
    while i < records.len()
        invariant
            0 <= i <= records.len(),
            records@ == all,
            candidate.valid(),
            all_valid(records@),
            spec_find(all, *candidate) == spec_find(all.skip(i as int), *candidate),
        decreases records.len() - i,
    {
        let ghost rest = all.skip(i as int);
        assert(rest[0] == all[i as int]);
        if matches_location(&records[i], candidate) {
            return Some(records[i]);
        }
        assert(rest.drop_first() =~= all.skip(i as int + 1));
        i = i + 1;
    }
    assert(all.skip(records.len() as int) =~= Seq::<Coord>::empty());
    None
}

/// Extends the record set with `fetched`, discarding any fetched record
/// whose rounded location is already present; existing records win.
pub fn merge(records: &Vec<Coord>, fetched: &Vec<Coord>) -> (r: Vec<Coord>)
    requires
        all_valid(records@),
        all_valid(fetched@),
    ensures
        r@ == spec_merge(records@, fetched@),
        all_valid(r@),
        records@.len() <= r@.len(),
{
    let mut cur: Vec<Coord> = Vec::new();
    let mut i: usize = 0;
    while i < records.len()
        invariant
            0 <= i <= records.len(),
            cur@ =~= records@.take(i as int),
            all_valid(records@),
        decreases records.len() - i,
    {
        cur.push(records[i]);
        i = i + 1;
    }
    assert(cur@ =~= records@);
    assert(fetched@.skip(0) =~= fetched@);
    let mut j: usize = 0;
    while j < fetched.len()
        invariant
            0 <= j <= fetched.len(),
            all_valid(cur@),
            all_valid(fetched@),
            records@.len() <= cur@.len(),
            spec_merge(records@, fetched@) == spec_merge(cur@, fetched@.skip(j as int)),
        decreases fetched.len() - j,
    {
        let ghost rest = fetched@.skip(j as int);
        assert(rest[0] == fetched@[j as int]);
        let hit = find(&fetched[j], &cur);
        if hit.is_none() {
            cur.push(fetched[j]);
            assert(all_valid(cur@));
        }
        assert(rest.drop_first() =~= fetched@.skip(j as int + 1));
        j = j + 1;
    }
    assert(fetched@.skip(fetched.len() as int) =~= Seq::<Coord>::empty());
    cur
}

/// A lookup comes back empty exactly when no stored record round-matches
/// the candidate.
pub proof fn lemma_find_none(records: Seq<Coord>, c: Coord)
    ensures
        spec_find(records, c) is None <==> (forall|i: int|
            0 <= i < records.len() ==> !same_location(#[trigger] records[i], c)),
    decreases records.len(),
{
    if records.len() > 0 {
        let rest = records.drop_first();
        lemma_find_none(rest, c);
        assert(forall|i: int| 0 <= i < rest.len() ==> #[trigger] rest[i] == records[i + 1]);
        if spec_find(records, c) is None {
            assert forall|i: int| 0 <= i < records.len() implies !same_location(
                #[trigger] records[i],
                c,
            ) by {
                if i > 0 {
                    assert(rest[i - 1] == records[i]);
                }
            }
        }
        if forall|i: int| 0 <= i < records.len() ==> !same_location(#[trigger] records[i], c) {
            assert(!same_location(records[0], c));
            assert(forall|i: int|
                0 <= i < rest.len() ==> !same_location(#[trigger] rest[i], c));
        }
    }
}

/// The store invariant survives a merge: when no two records round-collide,
/// none do after fetched records are merged in, since a fetched record
/// whose rounded location is already present is discarded.
pub proof fn lemma_merge_keeps_distinct(records: Seq<Coord>, fetched: Seq<Coord>)
    requires
        spec_distinct_locations(records),
    ensures
        spec_distinct_locations(spec_merge(records, fetched)),
    decreases fetched.len(),
{
    if fetched.len() > 0 {
        let f0 = fetched[0];
        if spec_find(records, f0) is None {
            lemma_find_none(records, f0);
            let next = records.push(f0);
            assert forall|i: int, j: int|
                0 <= i < next.len() && 0 <= j < next.len() && i != j implies !same_location(
                next[i],
                next[j],
            ) by {
                if i < records.len() && j < records.len() {
                    assert(!same_location(records[i], records[j]));
                } else if i < records.len() {
                    assert(!same_location(records[i], f0));
                } else {
                    assert(!same_location(records[j], f0));
                }
            }
            lemma_merge_keeps_distinct(next, fetched.drop_first());
        } else {
            lemma_merge_keeps_distinct(records, fetched.drop_first());
        }
    }
}

/// A found record round-matches the candidate it was looked up for.
pub proof fn lemma_find_matches(records: Seq<Coord>, c: Coord)
    ensures
        spec_find(records, c) matches Some(r) ==> same_location(r, c),
    decreases records.len(),
{
    if records.len() > 0 && !same_location(records[0], c) {
        lemma_find_matches(records.drop_first(), c);
    }
}

/// Pushing a record onto the set changes a lookup only when the set had
/// no match and the new record round-matches the candidate.
pub proof fn lemma_find_push(records: Seq<Coord>, added: Coord, c: Coord)
    ensures
        spec_find(records.push(added), c) == (if spec_find(records, c) is Some {
            spec_find(records, c)
        } else if same_location(added, c) {
            Some(added)
        } else {
            None::<Coord>
        }),
    decreases records.len(),
{
    if records.len() == 0 {
        assert(records.push(added)[0] == added);
        assert(records.push(added).drop_first() =~= Seq::<Coord>::empty());
    } else {
        assert(records.push(added)[0] == records[0]);
        assert(records.push(added).drop_first() =~= records.drop_first().push(added));
        lemma_find_push(records.drop_first(), added, c);
    }
}

/// A candidate already resolved by the record set is resolved to the same
/// record after any merge: merging only appends behind existing records.
pub proof fn lemma_merge_keeps_found(records: Seq<Coord>, fetched: Seq<Coord>, c: Coord)
    requires
        spec_find(records, c) is Some,
    ensures
        spec_find(spec_merge(records, fetched), c) == spec_find(records, c),
    decreases fetched.len(),
{
    if fetched.len() > 0 {
        lemma_find_push(records, fetched[0], c);
        let next = if spec_find(records, fetched[0]) is Some {
            records
        } else {
            records.push(fetched[0])
        };
        lemma_merge_keeps_found(next, fetched.drop_first(), c);
    }
}

} // verus!
