use chrono::TimeZone;
use socle::etag::{check_if_match_parsed, hex_string, ParseETagError};
use socle::{check_if_match, etag_from_updated_at, ETag};

fn millis(y: i32, m: u32, d: u32) -> i64 {
    chrono::Utc.with_ymd_and_hms(y, m, d, 0, 0, 0).unwrap().timestamp_millis()
}

#[test]
fn etag_from_updated_at_is_deterministic() {
    let ts = millis(2024, 1, 1);
    let a = etag_from_updated_at(ts);
    let b = etag_from_updated_at(ts);
    assert_eq!(a.to_header_text(), b.to_header_text());
    assert!(a.weak);
}

#[test]
fn etag_from_updated_at_different_times_differ() {
    let t1 = millis(2024, 1, 1);
    let t2 = millis(2024, 1, 2);
    assert_ne!(
        etag_from_updated_at(t1).to_header_text(),
        etag_from_updated_at(t2).to_header_text()
    );
}

#[test]
fn check_if_match_missing_header_returns_428() {
    let current = ETag::strong("abc".to_string());
    let err = check_if_match(None, &current).unwrap_err();
    assert_eq!(err.status, 428);
}

#[test]
fn check_if_match_wildcard_always_matches() {
    let current = ETag::strong("abc".to_string());
    assert!(check_if_match(Some(b"*".to_vec()), &current).is_ok());
}

#[test]
fn check_if_match_matching_etag_succeeds() {
    let current = etag_from_updated_at(millis(2024, 6, 1));
    let tag_str = current.to_header_text();
    assert!(check_if_match(Some(tag_str.into_bytes()), &current).is_ok());
}

#[test]
fn check_if_match_mismatched_etag_returns_412() {
    let current = ETag::strong("current".to_string());
    let err = check_if_match(Some(br#""other""#.to_vec()), &current).unwrap_err();
    assert_eq!(err.status, 412);
}

#[test]
fn check_if_match_invalid_ascii_returns_400() {
    let current = ETag::strong("x".to_string());
    let err = check_if_match(Some(b"\xff\xfe".to_vec()), &current).unwrap_err();
    assert_eq!(err.status, 400);
}

#[test]
fn etag_value_is_lowercase_hex_of_millis() {
    let t = etag_from_updated_at(1_700_000_000_000);
    assert_eq!(t.value, format!("{:x}", 1_700_000_000_000i64));
    assert_eq!(t.to_header_text(), format!("W/\"{:x}\"", 1_700_000_000_000i64));
    assert_eq!(hex_string(0), "0");
    assert_eq!(hex_string(255), "ff");
    assert_eq!(etag_from_updated_at(-1).value, "ffffffffffffffff");
}

#[test]
fn weak_comparison_ignores_weakness_strong_does_not() {
    let a = ETag::strong("v1".into());
    let b = ETag::weak("v1".into());
    assert!(a.matches_weak(&b));
    assert!(!a.matches(&b));
    assert!(a.matches(&ETag::strong("v1".into())));
}

#[test]
fn if_match_list_with_whitespace_matches_any_entry() {
    let current = ETag::strong("b".into());
    assert!(check_if_match(Some(br#"  "a", W/"b" "#.to_vec()), &current).is_ok());
}

#[test]
fn if_match_malformed_list_is_400_with_reason() {
    let current = ETag::strong("b".into());
    let err = check_if_match(Some(b"\"a\", bad".to_vec()), &current).unwrap_err();
    assert_eq!(err.status, 400);
    assert_eq!(err.detail, "If-Match header is malformed: ETag must be enclosed in double quotes");
}

#[test]
fn parsed_list_errors_and_mismatches() {
    let current = ETag::strong("z".into());
    let err = check_if_match_parsed(Err(ParseETagError::Empty), &current).unwrap_err();
    assert_eq!(err.detail, "If-Match header is malformed: ETag is empty");
    let err = check_if_match_parsed(Ok(vec![ETag::strong("y".into())]), &current).unwrap_err();
    assert_eq!(err.status, 412);
    assert_eq!(err.title, "Precondition Failed");
    assert!(check_if_match_parsed(Ok(vec![ETag::weak("z".into())]), &current).is_ok());
}

#[test]
fn tag_list_parser_reads_weak_and_strong_tags() {
    // A weak tag in the list matches the current strong tag weakly.
    let b = ETag::strong("b".into());
    assert!(check_if_match(Some(b"\"a\", W/\"b\"".to_vec()), &b).is_ok());
    let c = ETag::strong("c".into());
    assert_eq!(check_if_match(Some(b"\"a\", W/\"b\"".to_vec()), &c).unwrap_err().status, 412);
    // Blank text is an empty list.
    let err = check_if_match(Some(b"   ".to_vec()), &b).unwrap_err();
    assert_eq!(err.status, 400);
    assert_eq!(err.detail, "If-Match header is malformed: ETag is empty");
}
