use swo::adaptor::AdaptorSpecifier;
use swo::error::ErrorCode;

#[test]
fn parse_valid_specifier() {
    let sp = AdaptorSpecifier::parse("http@1").unwrap();
    assert_eq!(sp.id, "http");
    assert_eq!(sp.version, "1");
}

#[test]
fn parse_splits_at_first_separator() {
    let sp = AdaptorSpecifier::parse("a@b@c").unwrap();
    assert_eq!(sp.id, "a");
    assert_eq!(sp.version, "b@c");
}

#[test]
fn parse_format_round_trip() {
    for s in ["http@1", "tcp@2.0", "a@b@c", "@v", "x@"] {
        let sp = AdaptorSpecifier::parse(s).unwrap();
        assert_eq!(sp.canonical(), s);
    }
}

#[test]
fn parse_rejects_missing_separator() {
    let e = AdaptorSpecifier::parse("http-1").unwrap_err();
    assert_eq!(e.code, ErrorCode::Invalid);
    let e = AdaptorSpecifier::parse("").unwrap_err();
    assert_eq!(e.code, ErrorCode::Invalid);
}

#[test]
fn new_uses_protocol_version() {
    let sp = AdaptorSpecifier::new("http".to_string());
    assert_eq!(sp.canonical(), "http@1");
}

#[test]
fn from_str_matches_parse() {
    let sp: AdaptorSpecifier = "tcp@2".parse().unwrap();
    assert_eq!(sp.id, "tcp");
    assert_eq!(sp.version, "2");
    assert!("tcp2".parse::<AdaptorSpecifier>().is_err());
}

#[test]
fn error_renders_message_and_code() {
    let e = swo::error::Error::from_message("boom".to_string(), ErrorCode::Invalid);
    assert_eq!(e.render(), "boom[Invalid]: boom");
    assert_eq!(ErrorCode::Unreachable.name(), "Unreachable");
}

#[test]
fn error_codes_are_stable() {
    assert_eq!(ErrorCode::Unready.value(), 0);
    assert_eq!(ErrorCode::LoopDetected.value(), 10000);
    assert_eq!(ErrorCode::NotFound.value(), 10001);
    assert_eq!(ErrorCode::Unreachable.value(), 10002);
    assert_eq!(ErrorCode::Invalid.value(), 10003);
}

#[test]
fn error_from_message_carries_code() {
    let e = swo::error::Error::from_message("boom".to_string(), ErrorCode::NotFound);
    assert_eq!(e.message, "boom");
    assert_eq!(e.code, ErrorCode::NotFound);
    assert!(e.traceback.is_empty());
    let r: Result<(), swo::error::Error> = swo::error::error("bad".to_string(), ErrorCode::Invalid);
    assert_eq!(r.unwrap_err().code, ErrorCode::Invalid);
}
