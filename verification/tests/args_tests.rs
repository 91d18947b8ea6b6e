use sawtooth_raft::args::{parse_args, parse_node_id, ArgsError};

#[test]
fn endpoint_defaults_when_absent() {
    let args = parse_args(None, Some("3")).unwrap();
    assert_eq!(args.endpoint, "tcp://localhost:5050");
    assert_eq!(args.id, 3);
}

#[test]
fn endpoint_is_taken_when_given() {
    let args = parse_args(Some("tcp://validator:4004".to_string()), Some("12")).unwrap();
    assert_eq!(args.endpoint, "tcp://validator:4004");
    assert_eq!(args.id, 12);
}

#[test]
fn missing_id_is_reported() {
    assert_eq!(parse_args(None, None).unwrap_err(), ArgsError::MissingId);
    assert_eq!(
        parse_args(Some("tcp://x:1".to_string()), None).unwrap_err(),
        ArgsError::MissingId
    );
}

#[test]
fn invalid_id_is_reported() {
    for text in ["", "+", "abc", "-1", "1 ", " 1", "1x", "0x10", "++1", "1.0", "١"] {
        assert_eq!(parse_args(None, Some(text)).unwrap_err(), ArgsError::InvalidId, "{:?}", text);
    }
}

#[test]
fn id_numerals_are_read_exactly() {
    assert_eq!(parse_node_id(b"0"), Some(0));
    assert_eq!(parse_node_id(b"007"), Some(7));
    assert_eq!(parse_node_id(b"+42"), Some(42));
    assert_eq!(parse_node_id(b"1234567890"), Some(1234567890));
    assert_eq!(parse_node_id(b"18446744073709551615"), Some(u64::MAX));
    assert_eq!(parse_node_id(b"18446744073709551616"), None);
    assert_eq!(parse_node_id(b"99999999999999999999"), None);
    assert_eq!(parse_node_id(b"184467440737095516150"), None);
}

#[test]
fn id_numerals_agree_with_std() {
    for text in ["0", "+0", "65535", "+", "", "12a", "18446744073709551615", "18446744073709551616", "000000000000000000000001"] {
        assert_eq!(parse_node_id(text.as_bytes()), text.parse::<u64>().ok(), "{:?}", text);
    }
}
