use mira_core::codec::encode_toolbar_position;
use mira_core::codec::parse_toolbar_position;
use mira_core::geometry::ToolbarPosition;

fn round_trip(x: i32, y: i32) -> Option<ToolbarPosition> {
    let bytes = encode_toolbar_position(&ToolbarPosition { x, y });
    parse_toolbar_position(&bytes)
}

#[test]
fn encode_is_canonical_json() {
    let bytes = encode_toolbar_position(&ToolbarPosition { x: 100, y: 200 });
    assert_eq!(bytes, b"{\"x\":100,\"y\":200}".to_vec());
    let bytes = encode_toolbar_position(&ToolbarPosition { x: -7, y: 0 });
    assert_eq!(bytes, b"{\"x\":-7,\"y\":0}".to_vec());
}

#[test]
fn encode_then_parse_round_trips() {
    for &(x, y) in &[
        (100, 200),
        (0, 0),
        (-1, -1),
        (i32::MAX, i32::MIN),
        (i32::MIN, i32::MAX),
        (-2147483647, 1),
    ] {
        assert_eq!(round_trip(x, y), Some(ToolbarPosition { x, y }));
    }
}

#[test]
fn parse_accepts_whitespace_between_tokens() {
    let bytes = b" {\t\"x\" :\n100 ,\r\"y\": -200 } ".to_vec();
    assert_eq!(
        parse_toolbar_position(&bytes),
        Some(ToolbarPosition { x: 100, y: -200 })
    );
}

#[test]
fn parse_rejects_malformed_records() {
    for bad in [
        &b""[..],
        b"null",
        b"{}",
        b"{\"x\":1}",
        b"{\"y\":2,\"x\":1}",
        b"{\"x\":1,\"y\":}",
        b"{\"x\":1,\"y\":2",
        b"{\"x\":1,\"y\":2}}",
        b"{\"x\":1,\"y\":2} junk",
        b"{\"x\":01,\"y\":2}",
        b"{\"x\":+1,\"y\":2}",
        b"{\"x\":1.5,\"y\":2}",
        b"{\"x\":--1,\"y\":2}",
        b"{\"x\":,\"y\":2}",
    ] {
        assert_eq!(parse_toolbar_position(&bad.to_vec()), None, "{:?}", bad);
    }
}

#[test]
fn parse_rejects_out_of_range_numbers() {
    // One past each i32 bound, and a run of more than ten digits.
    assert_eq!(parse_toolbar_position(&b"{\"x\":2147483648,\"y\":0}".to_vec()), None);
    assert_eq!(parse_toolbar_position(&b"{\"x\":0,\"y\":-2147483649}".to_vec()), None);
    assert_eq!(parse_toolbar_position(&b"{\"x\":99999999999,\"y\":0}".to_vec()), None);
}

#[test]
fn parse_accepts_extreme_in_range_numbers() {
    assert_eq!(
        parse_toolbar_position(&b"{\"x\":2147483647,\"y\":-2147483648}".to_vec()),
        Some(ToolbarPosition { x: i32::MAX, y: i32::MIN })
    );
}

#[test]
fn parse_accepts_negative_zero() {
    assert_eq!(
        parse_toolbar_position(&b"{\"x\":-0,\"y\":0}".to_vec()),
        Some(ToolbarPosition { x: 0, y: 0 })
    );
}

#[test]
fn encoded_bytes_are_valid_json_for_serde() {
    let bytes = encode_toolbar_position(&ToolbarPosition { x: 100, y: -200 });
    let value: serde_json::Value = serde_json::from_slice(&bytes).unwrap();
    assert_eq!(value.get("x").and_then(|v| v.as_i64()), Some(100));
    assert_eq!(value.get("y").and_then(|v| v.as_i64()), Some(-200));
}

#[test]
fn parser_agrees_with_serde_output() {
    // serde_json's compact output for the record is exactly what the
    // encoder produces, and the parser reads it back.
    let mut map = serde_json::Map::new();
    map.insert("x".to_string(), serde_json::Value::from(31));
    map.insert("y".to_string(), serde_json::Value::from(-4));
    let bytes = serde_json::to_vec(&serde_json::Value::Object(map)).unwrap();
    assert_eq!(
        parse_toolbar_position(&bytes),
        Some(ToolbarPosition { x: 31, y: -4 })
    );
}
