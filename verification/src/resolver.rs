//! The altitude resolver: cache partitioning, transport selection and
//! order-preserving response assembly.
//!
//! A resolve runs in two steps driven by the caller. `fetch_begin`
//! partitions the requested batch against the cache records: when every
//! coordinate is cached it finishes at once with the ordered response;
//! otherwise it reports the missed coordinates, in their original
//! relative order, and the transport to send them over. The caller
//! performs the one remote call and hands the outcome to `fetch_finish`,
//! which validates it, merges the fetched records into the cache set
//! (first seen wins) and assembles the response. A transport failure
//! aborts the whole batch with no partial result and leaves the record
//! set untouched.

use vstd::prelude::*;

use crate::cache::find;
use crate::cache::merge;
use crate::cache::spec_find;
use crate::cache::spec_merge;
use crate::coord::all_valid;
use crate::coord::check_all_valid;
use crate::coord::Coord;
use crate::encode::select_transport;
use crate::encode::spec_batch_form;
use crate::encode::Transport;

verus! {

/// Why a resolve failed.
#[derive(Clone, Copy, PartialEq, Eq, Structural, Debug)]
pub enum ResolveError {
    /// The remote call could not be completed.
    Transport,
    /// The remote payload was malformed or of the wrong shape,
    /// including a fetched count differing from the missed count.
    Protocol,
    /// The cache could not be persisted; the resolved response is
    /// still valid.
    Persistence,
}

/// The outcome of the remote call, handed back by the caller.
#[derive(Debug)]
pub enum TransportEvent {
    /// The decoded records the service returned, in request order.
    Fetched(Vec<Coord>),
    /// The call could not be completed or its payload not decoded.
    Failed,
}

/// What `fetch_begin` decided for a batch.
#[derive(Debug)]
pub enum FetchStep {
    /// Every coordinate was cached: the ordered response, no remote call.
    Done(Vec<Coord>),
    /// The missed coordinates, in original relative order, to be sent
    /// over the selected transport.
    Need(Vec<Coord>, Transport),
}

/// A completed resolve: the ordered response and the updated record set.
#[derive(Debug)]
pub struct FetchDone {
    /// One resolved coordinate per requested one, in request order.
    pub response: Vec<Coord>,
    /// The record set with the fetched records merged in, to be
    /// persisted by the caller.
    pub records: Vec<Coord>,
}

/// The requested coordinates without a cache match, in original order.
pub open spec fn spec_misses(req: Seq<Coord>, records: Seq<Coord>) -> Seq<Coord>
    decreases req.len(),
{
    if req.len() == 0 {
        Seq::empty()
    } else {
        spec_misses(req.drop_last(), records) + (if spec_find(records, req.last()) is None {
            seq![req.last()]
        } else {
            Seq::<Coord>::empty()
        })
    }
}

/// The altitude owed to request index `i`: its cache match's altitude,
/// or the fetched altitude at its position among the misses.
pub open spec fn spec_resolved_altitude(
    req: Seq<Coord>,
    records: Seq<Coord>,
    fetched: Seq<Coord>,
    i: int,
) -> i64 {
    match spec_find(records, req[i]) {
        Some(hit) => hit.altitude,
        None => fetched[spec_misses(req.take(i), records).len() as int].altitude,
    }
}

/// The response owed to `req`: each requested coordinate's own latitude
/// and longitude, carrying its resolved altitude.
pub open spec fn spec_response(req: Seq<Coord>, records: Seq<Coord>, fetched: Seq<Coord>) -> Seq<
    Coord,
> {
    Seq::new(
        req.len(),
        |i: int|
            Coord {
                latitude: req[i].latitude,
                longitude: req[i].longitude,
                altitude: spec_resolved_altitude(req, records, fetched, i),
            },
    )
}

/// A missed request index stands in the miss list exactly at the count
/// of misses before it, so positional fetched results line up.
pub proof fn lemma_miss_index(req: Seq<Coord>, records: Seq<Coord>, i: int)
    requires
        0 <= i < req.len(),
        spec_find(records, req[i]) is None,
    ensures
        spec_misses(req.take(i), records).len() < spec_misses(req, records).len(),
        spec_misses(req, records)[spec_misses(req.take(i), records).len() as int] == req[i],
    decreases req.len(),
{
    if i == req.len() - 1 {
        assert(req.take(i) =~= req.drop_last());
        assert(req.last() == req[i]);
    } else {
        lemma_miss_index(req.drop_last(), records, i);
        assert(req.drop_last().take(i) =~= req.take(i));
        assert(req.drop_last()[i] == req[i]);
    }
}

/// Walks `req` by index, substituting each coordinate's cache match or
/// its positional fetched result.
fn assemble(req: &Vec<Coord>, records: &Vec<Coord>, fetched: &Vec<Coord>) -> (r: Vec<Coord>)
    requires
        all_valid(req@),
        all_valid(records@),
        fetched@.len() == spec_misses(req@, records@).len(),
    ensures
        r@ == spec_response(req@, records@, fetched@),
{
    let mut out: Vec<Coord> = Vec::new();
    let mut next_miss: usize = 0;
    let mut i: usize = 0;
    assert(req@.take(0) =~= Seq::<Coord>::empty());
    while i < req.len()
        invariant
            0 <= i <= req.len(),
            all_valid(req@),
            all_valid(records@),
            fetched@.len() == spec_misses(req@, records@).len(),
            next_miss == spec_misses(req@.take(i as int), records@).len(),
            next_miss <= i,
            out@.len() == i,
            forall|k: int|
                0 <= k < i ==> out@[k] == spec_response(req@, records@, fetched@)[k],
        decreases req.len() - i,
    {
        proof {
            let t = req@.take(i as int + 1);
            assert(t.drop_last() =~= req@.take(i as int));
            assert(t.last() == req@[i as int]);
        }
        let hit = find(&req[i], records);
        match hit {
            Some(cached) => {
                out.push(req[i].with_altitude(cached.altitude));
            },
            None => {
                proof {
                    lemma_miss_index(req@, records@, i as int);
                }
                out.push(req[i].with_altitude(fetched[next_miss].altitude));
                next_miss = next_miss + 1;
            },
        }
        i = i + 1;
    }
    assert(req@.take(req.len() as int) =~= req@);
    assert(out@ =~= spec_response(req@, records@, fetched@));
    out
}

/// The number of requested coordinates without a cache match.
fn count_misses(req: &Vec<Coord>, records: &Vec<Coord>) -> (n: usize)
    requires
        all_valid(req@),
        all_valid(records@),
    ensures
        n == spec_misses(req@, records@).len(),
{
    let mut n: usize = 0;
    let mut i: usize = 0;
    assert(req@.take(0) =~= Seq::<Coord>::empty());
    while i < req.len()
        invariant
            0 <= i <= req.len(),
            all_valid(req@),
            all_valid(records@),
            n <= i,
            n == spec_misses(req@.take(i as int), records@).len(),
        decreases req.len() - i,
    {
        proof {
            let t = req@.take(i as int + 1);
            assert(t.drop_last() =~= req@.take(i as int));
            assert(t.last() == req@[i as int]);
        }
        if find(&req[i], records).is_none() {
            n = n + 1;
        }
        i = i + 1;
    }
    assert(req@.take(req.len() as int) =~= req@);
    n
}

/// Partitions the batch against the cache records. When nothing is
/// missed the ordered response is completed from cache alone, with no
/// transport work; otherwise the missed coordinates are returned, in
/// original relative order, with the transport selected for them by
/// payload size.
pub fn fetch_begin(coords: &Vec<Coord>, records: &Vec<Coord>) -> (s: FetchStep)
    requires
        all_valid(coords@),
        all_valid(records@),
    ensures
        ({
            let misses = spec_misses(coords@, records@);
            match s {
                FetchStep::Done(response) => misses.len() == 0 && response@ == spec_response(
                    coords@,
                    records@,
                    Seq::<Coord>::empty(),
                ),
                FetchStep::Need(m, t) => {
                    &&& m@ == misses
                    &&& misses.len() > 0
                    &&& all_valid(m@)
                    &&& (t == Transport::Query <==> spec_batch_form(misses).len()
                        <= 1024)
                },
            }
        }),
{
    let mut misses: Vec<Coord> = Vec::new();
    let mut i: usize = 0;
    assert(coords@.take(0) =~= Seq::<Coord>::empty());
    while i < coords.len()
        invariant
            0 <= i <= coords.len(),
            all_valid(coords@),
            all_valid(records@),
            all_valid(misses@),
            misses@ == spec_misses(coords@.take(i as int), records@),
        decreases coords.len() - i,
    {
        proof {
            let t = coords@.take(i as int + 1);
            assert(t.drop_last() =~= coords@.take(i as int));
            assert(t.last() == coords@[i as int]);
        }
        if find(&coords[i], records).is_none() {
            misses.push(coords[i]);
            assert(misses@ =~= spec_misses(coords@.take(i as int + 1), records@));
        }
        i = i + 1;
    }
    assert(coords@.take(coords.len() as int) =~= coords@);
    if misses.is_empty() {
        assert(misses@ =~= Seq::<Coord>::empty());
        let response = assemble(coords, records, &misses);
        FetchStep::Done(response)
    } else {
        let transport = select_transport(&misses);
        FetchStep::Need(misses, transport)
    }
}

/// Consumes the transport outcome for the batch begun on `coords`
/// against `records`. A failure aborts the whole batch; a fetched list
/// of the wrong length or with an out-of-range coordinate is a protocol
/// fault; otherwise the fetched records are merged into the record set,
/// existing records winning round-collisions, and the ordered response
/// is assembled.
pub fn fetch_finish(coords: &Vec<Coord>, records: &Vec<Coord>, event: TransportEvent) -> (r:
    Result<FetchDone, ResolveError>)
    requires
        all_valid(coords@),
        all_valid(records@),
    ensures
        ({
            let misses = spec_misses(coords@, records@);
            match event {
                TransportEvent::Failed => r matches Err(e) && e == ResolveError::Transport,
                TransportEvent::Fetched(fetched) => {
                    if fetched@.len() == misses.len() && all_valid(fetched@) {
                        r matches Ok(d) && d.response@ == spec_response(
                            coords@,
                            records@,
                            fetched@,
                        ) && d.records@ == spec_merge(records@, fetched@) && all_valid(d.records@)
                    } else {
                        r matches Err(e) && e == ResolveError::Protocol
                    }
                },
            }
        }),
{
    match event {
        TransportEvent::Failed => Err(ResolveError::Transport),
        TransportEvent::Fetched(fetched) => {
            let n: usize = count_misses(coords, records);
            if fetched.len() != n || !check_all_valid(&fetched) {
                return Err(ResolveError::Protocol);
            }
            let response = assemble(coords, records, &fetched);
            let new_records = merge(records, &fetched);
            Ok(FetchDone { response, records: new_records })
        },
    }
}

/// Writes resolved altitudes back onto the caller's own coordinates,
/// positionally, without reallocating the sequence; latitude and
/// longitude are untouched.
pub fn add_altitude(coords: &mut Vec<Coord>, resolved: &Vec<Coord>)
    requires
        resolved@.len() == old(coords)@.len(),
    ensures
        final(coords)@.len() == old(coords)@.len(),
        forall|i: int|
            0 <= i < old(coords)@.len() ==> final(coords)@[i] == (Coord {
                altitude: resolved@[i].altitude,
                ..old(coords)@[i]
            }),
{
    let ghost orig = coords@;
    let mut i: usize = 0;
    while i < coords.len()
        invariant
            0 <= i <= coords@.len(),
            coords@.len() == orig.len(),
            resolved@.len() == orig.len(),
            forall|k: int|
                0 <= k < i ==> coords@[k] == (Coord {
                    altitude: resolved@[k].altitude,
                    ..orig[k]
                }),
            forall|k: int| i <= k < orig.len() ==> coords@[k] == orig[k],
        decreases coords@.len() - i,
    {
        let updated = coords[i].with_altitude(resolved[i].altitude);
        coords.set(i, updated);
        i = i + 1;
    }
}

} // verus!
