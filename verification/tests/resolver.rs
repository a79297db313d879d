use coordinate_altitude::cache::find;
use coordinate_altitude::cache::merge;
use coordinate_altitude::resolver::add_altitude;
use coordinate_altitude::resolver::fetch_begin;
use coordinate_altitude::resolver::fetch_finish;
use coordinate_altitude::Coord;
use coordinate_altitude::FetchStep;
use coordinate_altitude::ResolveError;
use coordinate_altitude::Transport;
use coordinate_altitude::TransportEvent;

fn coord(lat: i64, lon: i64) -> Coord {
    Coord::new(lat, lon).unwrap()
}

#[test]
fn find_returns_first_round_match() {
    let records = vec![
        coord(10_000_000_400, 0).with_altitude(5),
        coord(10_000_000_200, 0).with_altitude(7),
    ];
    let hit = find(&coord(10_000_000_000, 0), &records).unwrap();
    assert_eq!(hit.altitude, 5);
    assert_eq!(find(&coord(11_000_000_000, 0), &records), None);
}

#[test]
fn merge_keeps_first_seen_record() {
    let records = vec![coord(10_000_000_000, 0).with_altitude(5)];
    let fetched = vec![
        coord(10_000_000_400, 0).with_altitude(9),
        coord(20_000_000_000, 0).with_altitude(3),
        coord(20_000_000_000, 0).with_altitude(4),
    ];
    let merged = merge(&records, &fetched);
    // the round-collision with the stored record and the in-batch
    // duplicate are both discarded
    assert_eq!(
        merged,
        vec![
            coord(10_000_000_000, 0).with_altitude(5),
            coord(20_000_000_000, 0).with_altitude(3),
        ]
    );
}

#[test]
fn empty_batch_resolves_immediately() {
    let records = vec![coord(1_000_000_000, 2_000_000_000).with_altitude(8)];
    match fetch_begin(&Vec::new(), &records) {
        FetchStep::Done(response) => assert_eq!(response, Vec::new()),
        FetchStep::Need(..) => panic!("empty batch must not reach the transport"),
    }
}

#[test]
fn fresh_coordinate_is_fetched_and_cached() {
    // cache empty; input (10,-10); the adapter hands back (10,-10,21):
    // the response carries 21 and the cache holds exactly that record
    let requested = vec![coord(10_000_000_000, -10_000_000_000)];
    let records: Vec<Coord> = Vec::new();
    let misses = match fetch_begin(&requested, &records) {
        FetchStep::Done(_) => panic!("an empty cache cannot resolve the batch"),
        FetchStep::Need(misses, transport) => {
            assert_eq!(transport, Transport::Query);
            assert_eq!(misses, requested);
            misses
        }
    };
    let fetched: Vec<Coord> = misses.iter().map(|c| c.with_altitude(21)).collect();
    let done = fetch_finish(&requested, &records, TransportEvent::Fetched(fetched)).unwrap();
    assert_eq!(
        done.response,
        vec![coord(10_000_000_000, -10_000_000_000).with_altitude(21)]
    );
    assert_eq!(
        done.records,
        vec![coord(10_000_000_000, -10_000_000_000).with_altitude(21)]
    );
}

#[test]
fn cached_batch_short_circuits() {
    // cache holds (20.345300, 28.000000, 32); the input rounds to the
    // same six-decimal key, so the resolver never touches the transport
    let records = vec![coord(20_345_300_000, 28_000_000_000).with_altitude(32)];
    let requested = vec![coord(20_345_300_040, 28_000_000_000)];
    match fetch_begin(&requested, &records) {
        FetchStep::Done(response) => {
            assert_eq!(
                response,
                vec![coord(20_345_300_040, 28_000_000_000).with_altitude(32)]
            );
        }
        FetchStep::Need(..) => panic!("a fully cached batch must not reach the transport"),
    }
}

#[test]
fn transport_failure_aborts_batch() {
    let requested = vec![coord(10_000_000_000, -10_000_000_000)];
    let records = vec![coord(1_000_000_000, 2_000_000_000).with_altitude(8)];
    let before = records.clone();
    let result = fetch_finish(&requested, &records, TransportEvent::Failed);
    assert_eq!(result.unwrap_err(), ResolveError::Transport);
    // no partial write: the record set is exactly what it was
    assert_eq!(records, before);
}

#[test]
fn count_mismatch_is_a_protocol_error() {
    let requested = vec![
        coord(10_000_000_000, -10_000_000_000),
        coord(20_000_000_000, -20_000_000_000),
    ];
    let records: Vec<Coord> = Vec::new();
    let fetched = vec![coord(10_000_000_000, -10_000_000_000).with_altitude(21)];
    let result = fetch_finish(&requested, &records, TransportEvent::Fetched(fetched));
    assert_eq!(result.unwrap_err(), ResolveError::Protocol);
}

#[test]
fn out_of_range_fetch_is_a_protocol_error() {
    let requested = vec![coord(10_000_000_000, -10_000_000_000)];
    let records: Vec<Coord> = Vec::new();
    let fetched = vec![Coord {
        latitude: 95_000_000_000,
        longitude: 0,
        altitude: 21,
    }];
    let result = fetch_finish(&requested, &records, TransportEvent::Fetched(fetched));
    assert_eq!(result.unwrap_err(), ResolveError::Protocol);
}

#[test]
fn response_preserves_order_and_duplicates() {
    let a = coord(10_000_000_000, -10_000_000_000);
    let b = coord(20_345_300_000, 28_000_000_000);
    let requested = vec![a, b, a];
    let records = vec![b.with_altitude(32)];
    let misses = match fetch_begin(&requested, &records) {
        FetchStep::Done(_) => panic!("the two uncached entries must be fetched"),
        FetchStep::Need(misses, _) => misses,
    };
    // both occurrences of the uncached coordinate are fetched, in order
    assert_eq!(misses, vec![a, a]);
    let fetched = vec![a.with_altitude(21), a.with_altitude(21)];
    let done = fetch_finish(&requested, &records, TransportEvent::Fetched(fetched)).unwrap();
    assert_eq!(
        done.response,
        vec![a.with_altitude(21), b.with_altitude(32), a.with_altitude(21)]
    );
}

#[test]
fn second_resolve_hits_cache_with_same_altitudes() {
    // resolve once against an empty cache, merge, then resolve the same
    // batch again: no transport step, identical altitudes
    let requested = vec![
        coord(10_000_000_000, -10_000_000_000),
        coord(41_161_758_000, -8_583_933_000),
    ];
    let records: Vec<Coord> = Vec::new();
    let misses = match fetch_begin(&requested, &records) {
        FetchStep::Done(_) => panic!("an empty cache cannot resolve the batch"),
        FetchStep::Need(misses, _) => misses,
    };
    let fetched: Vec<Coord> = misses
        .iter()
        .enumerate()
        .map(|(i, c)| c.with_altitude(100 + i as i64))
        .collect();
    let done = fetch_finish(&requested, &records, TransportEvent::Fetched(fetched)).unwrap();
    match fetch_begin(&requested, &done.records) {
        FetchStep::Done(second) => assert_eq!(second, done.response),
        FetchStep::Need(..) => panic!("the second resolve must be served from cache"),
    }
}

#[test]
fn add_altitude_updates_in_place() {
    let mut coords = vec![
        coord(10_000_000_000, -10_000_000_000),
        coord(20_345_300_000, 28_000_000_000),
    ];
    let resolved = vec![
        coord(10_000_000_000, -10_000_000_000).with_altitude(21),
        coord(20_345_300_000, 28_000_000_000).with_altitude(32),
    ];
    add_altitude(&mut coords, &resolved);
    assert_eq!(coords[0].altitude, 21);
    assert_eq!(coords[1].altitude, 32);
    assert_eq!(coords[0].latitude, 10_000_000_000);
    assert_eq!(coords[1].longitude, 28_000_000_000);
}
