use coordinate_altitude::encode::batch_form;
use coordinate_altitude::encode::post_body;
use coordinate_altitude::encode::select_transport;
use coordinate_altitude::encode::strip_envelope;
use coordinate_altitude::Coord;
use coordinate_altitude::Transport;

#[test]
fn get_form_whole_degrees() {
    let c = Coord::new(10_000_000_000, -10_000_000_000).unwrap();
    assert_eq!(c.get_form(), b"10,-10".to_vec());
}

#[test]
fn get_form_trims_trailing_zeros() {
    // 10.5 and -8.583933 degrees: fractions keep no trailing zeros
    let c = Coord::new(10_500_000_000, -8_583_933_000).unwrap();
    assert_eq!(c.get_form(), b"10.5,-8.583933".to_vec());
    // 10.05: an inner zero stays
    let d = Coord::new(10_050_000_000, 0).unwrap();
    assert_eq!(d.get_form(), b"10.05,0".to_vec());
    // full nine-place precision survives
    let e = Coord::new(41_161_758_001, -180_000_000_000).unwrap();
    assert_eq!(e.get_form(), b"41.161758001,-180".to_vec());
}

#[test]
fn batch_form_is_delimited() {
    let coords = vec![
        Coord::new(83_320_000_000, 38_200_000_000).unwrap(),
        Coord::new(21_230_000_000, 128_534_000_000).unwrap(),
    ];
    assert_eq!(batch_form(&coords), b"83.32,38.2|21.23,128.534".to_vec());
    assert_eq!(batch_form(&Vec::new()), Vec::<u8>::new());
}

#[test]
fn transport_boundary_at_1024_bytes() {
    // 145 coordinates of form "10,-10" (6 bytes), one of form
    // "10.25,-10" (9 bytes) and 145 separators: exactly 1024 bytes
    let mut batch = Vec::new();
    for _ in 0..145 {
        batch.push(Coord::new(10_000_000_000, -10_000_000_000).unwrap());
    }
    batch.push(Coord::new(10_250_000_000, -10_000_000_000).unwrap());
    assert_eq!(batch_form(&batch).len(), 1024);
    assert_eq!(select_transport(&batch), Transport::Query);
    // one more coordinate pushes it over: the body transport is used
    batch.push(Coord::new(10_000_000_000, -10_000_000_000).unwrap());
    assert!(batch_form(&batch).len() > 1024);
    assert_eq!(select_transport(&batch), Transport::Body);
}

#[test]
fn transport_small_batch_uses_query() {
    let batch = vec![Coord::new(10_000_000_000, -10_000_000_000).unwrap()];
    assert_eq!(select_transport(&batch), Transport::Query);
}

#[test]
fn post_body_wraps_locations() {
    let coords = vec![
        Coord::new(10_000_000_000, -10_000_000_000).unwrap(),
        Coord::new(20_345_300_000, 28_000_000_000).unwrap(),
    ];
    let expected = br#"{"locations":[{"latitude":10,"longitude":-10},{"latitude":20.3453,"longitude":28}]}"#;
    assert_eq!(post_body(&coords), expected.to_vec());
}

#[test]
fn strip_envelope_unwraps_results() {
    let raw = br#"{"results": [{"latitude":10}]}"#.to_vec();
    let payload = strip_envelope(&raw).unwrap();
    assert_eq!(payload, br#" [{"latitude":10}]"#.to_vec());
}

#[test]
fn strip_envelope_rejects_malformed() {
    assert_eq!(strip_envelope(&b"{}".to_vec()), None);
    assert_eq!(strip_envelope(&br#"{"outcome": [1,2,3]}"#.to_vec()), None);
    assert_eq!(strip_envelope(&br#"{"results": [1,2,3]"#.to_vec()), None);
}
