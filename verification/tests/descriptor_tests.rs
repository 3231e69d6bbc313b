use raincloud::descriptor::{encode_descriptor, parse_descriptor};

const SEC: u64 = 1_000_000_000;

#[test]
fn encodes_whole_seconds() {
    let out = encode_descriptor(1000 * SEC);
    assert_eq!(out, b"{\"time\":1000.000000000}".to_vec());
}

#[test]
fn encodes_zero() {
    let out = encode_descriptor(0);
    assert_eq!(out, b"{\"time\":0.000000000}".to_vec());
}

#[test]
fn encodes_fractional_clock() {
    let out = encode_descriptor(1_699_999_999 * SEC + 123_456_789);
    assert_eq!(out, b"{\"time\":1699999999.123456789}".to_vec());
}

#[test]
fn parses_short_fraction() {
    // The form serde-style writers produce for a whole number of seconds.
    let v = parse_descriptor(&b"{\"time\":1000.0}".to_vec());
    assert_eq!(v, Some(1000 * SEC));
}

#[test]
fn parses_without_fraction() {
    let v = parse_descriptor(&b"{\"time\":42}".to_vec());
    assert_eq!(v, Some(42 * SEC));
}

#[test]
fn parses_half_second() {
    let v = parse_descriptor(&b"{\"time\":1000.5}".to_vec());
    assert_eq!(v, Some(1000 * SEC + 500_000_000));
}

#[test]
fn rejects_malformed_records() {
    assert_eq!(parse_descriptor(&b"".to_vec()), None);
    assert_eq!(parse_descriptor(&b"{\"time\":}".to_vec()), None);
    assert_eq!(parse_descriptor(&b"{\"time\":abc}".to_vec()), None);
    assert_eq!(parse_descriptor(&b"{\"clock\":1.0}".to_vec()), None);
    assert_eq!(parse_descriptor(&b"{\"time\":1.0".to_vec()), None);
    assert_eq!(parse_descriptor(&b"{\"time\":.5}".to_vec()), None);
    assert_eq!(parse_descriptor(&b"{\"time\":1.}".to_vec()), None);
    assert_eq!(parse_descriptor(&b"{\"time\":1.0000000001}".to_vec()), None);
    assert_eq!(parse_descriptor(&b"{\"time\":-1.0}".to_vec()), None);
}

#[test]
fn rejects_out_of_range_clock() {
    // More seconds than a u64 count of nanoseconds can carry.
    let v = parse_descriptor(&b"{\"time\":99999999999999999999.0}".to_vec());
    assert_eq!(v, None);
}

#[test]
fn round_trips_clocks() {
    for nanos in [0u64, 1, 999_999_999, SEC, 1000 * SEC + 7, u64::MAX] {
        let encoded = encode_descriptor(nanos);
        assert_eq!(parse_descriptor(&encoded), Some(nanos));
    }
}

#[test]
fn written_descriptor_reads_as_json() {
    let out = encode_descriptor(1500 * SEC + 500_000_000);
    let value: serde_json::Value = serde_json::from_slice(&out).unwrap();
    let time = value.get("time").unwrap().as_f64().unwrap();
    assert_eq!(time, 1500.5);
}

#[test]
fn serde_written_descriptor_parses() {
    let mut record = serde_json::Map::new();
    record.insert("time".to_string(), serde_json::Value::from(2000.0f64));
    let text = serde_json::to_string(&serde_json::Value::Object(record)).unwrap();
    assert_eq!(text, "{\"time\":2000.0}");
    let v = parse_descriptor(&text.into_bytes());
    assert_eq!(v, Some(2000 * SEC));
}
