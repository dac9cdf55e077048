use socle::paths::{is_uuid_like, metric_labels, normalize_path, parses_as_u64, status_label};

#[test]
fn normalize_path_leaves_static_segments() {
    assert_eq!(normalize_path("/api/health"), "/api/health");
}

#[test]
fn normalize_path_replaces_numeric_id() {
    assert_eq!(normalize_path("/users/42/orders"), "/users/{id}/orders");
}

#[test]
fn normalize_path_replaces_uuid() {
    assert_eq!(normalize_path("/users/550e8400-e29b-41d4-a716-446655440000"), "/users/{id}");
}

#[test]
fn normalize_path_preserves_non_id_hex() {
    assert_eq!(normalize_path("/git/abc123"), "/git/abc123");
}

#[test]
fn normalize_path_keeps_empty_segments_and_slashes() {
    assert_eq!(normalize_path(""), "");
    assert_eq!(normalize_path("/"), "/");
    assert_eq!(normalize_path("//7//"), "//{id}//");
    assert_eq!(normalize_path("7"), "{id}");
}

#[test]
fn u64_segments_follow_str_parse() {
    let chars = |s: &str| s.chars().collect::<Vec<char>>();
    assert!(parses_as_u64(&chars("0")));
    assert!(parses_as_u64(&chars("+12")));
    assert!(parses_as_u64(&chars("18446744073709551615")));
    assert!(!parses_as_u64(&chars("18446744073709551616")));
    assert!(!parses_as_u64(&chars("+")));
    assert!(!parses_as_u64(&chars("-1")));
    assert!(!parses_as_u64(&chars("")));
    for s in ["0", "+12", "18446744073709551615", "18446744073709551616", "+", "-1", "", "1a"] {
        assert_eq!(parses_as_u64(&chars(s)), s.parse::<u64>().is_ok());
    }
}

#[test]
fn uuid_like_segments() {
    let chars = |s: &str| s.chars().collect::<Vec<char>>();
    assert!(is_uuid_like(&chars("550E8400-E29B-41D4-A716-446655440000")));
    assert!(!is_uuid_like(&chars("550e8400e29b41d4a716446655440000")));
    assert!(!is_uuid_like(&chars("550e8400-e29b-41d4-a716-44665544000g")));
}

#[test]
fn normalizing_a_label_again_changes_nothing() {
    for p in [
        "/users/42/orders/550e8400-e29b-41d4-a716-446655440000",
        "/git/abc123//x/",
        "",
        "{id}",
    ] {
        let once = normalize_path(p);
        assert_eq!(normalize_path(&once), once);
    }
}

#[test]
fn status_labels_are_decimal() {
    assert_eq!(status_label(0), "0");
    assert_eq!(status_label(7), "7");
    assert_eq!(status_label(200), "200");
    assert_eq!(status_label(404), "404");
    assert_eq!(status_label(65535), "65535");
}

#[test]
fn metric_labels_prefer_the_matched_route() {
    let (m, r, s) = metric_labels("GET", Some("/users/{id}".to_string()), "/users/42", 200);
    assert_eq!((m.as_str(), r.as_str(), s.as_str()), ("GET", "/users/{id}", "200"));
    let (_, r, s) = metric_labels("POST", None, "/users/42/orders", 503);
    assert_eq!((r.as_str(), s.as_str()), ("/users/{id}/orders", "503"));
}
