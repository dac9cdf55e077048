use socle::Error;

#[test]
fn error_display_covers_all_variants() {
    assert!(Error::Config("x".into()).message().contains("x"));
    assert!(Error::Telemetry("x".into()).message().contains("x"));
    assert!(Error::Database("x".into()).message().contains("x"));
    assert!(Error::Bind("x".into()).message().contains("x"));
    assert!(Error::Serve("x".into()).message().contains("x"));
}

#[test]
fn error_messages_name_the_stage() {
    assert_eq!(Error::Config("bad".into()).message(), "configuration error: bad");
    assert_eq!(Error::Telemetry("t".into()).message(), "telemetry init failed: t");
    assert_eq!(Error::Database("d".into()).message(), "database init failed: d");
    assert_eq!(Error::Bind("b".into()).message(), "bind failed: b");
    assert_eq!(Error::Serve("s".into()).message(), "serve failed: s");
    assert_eq!(Error::HttpClient("h".into()).message(), "http client build failed: h");
}
