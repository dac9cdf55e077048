use socle::config::config_load_error;
use socle::{BootstrapConfig, CorsConfig, Error, LogFormat, RateLimitConfig, RateLimitKind};

fn with_rate_limit(kind: RateLimitKind) -> BootstrapConfig {
    let mut cfg = BootstrapConfig::default();
    cfg.rate_limit = RateLimitConfig { kind };
    cfg
}

#[test]
fn defaults_are_sensible() {
    let cfg = BootstrapConfig::default();
    assert_eq!(cfg.bind_addr, "0.0.0.0:8080");
    assert_eq!(cfg.health_path, "/health");
    assert_eq!(cfg.body_limit_bytes, 2 * 1024 * 1024);
    assert_eq!(cfg.shutdown_timeout_secs, 30);
    assert!(matches!(cfg.rate_limit.kind, RateLimitKind::Disabled));
    assert!(matches!(cfg.log_format, LogFormat::Pretty));
}

#[test]
fn validate_passes_for_defaults() {
    assert!(BootstrapConfig::default().validate().is_ok());
}

#[test]
fn validate_rejects_zero_rate_limit() {
    let cfg = with_rate_limit(RateLimitKind::Memory { limit: 0, window_secs: 60 });
    assert!(matches!(cfg.validate(), Err(Error::Config(_))));
}

#[test]
fn validate_rejects_zero_window_secs() {
    let cfg = with_rate_limit(RateLimitKind::Memory { limit: 10, window_secs: 0 });
    assert!(matches!(cfg.validate(), Err(Error::Config(_))));
}

#[test]
fn cors_config_default_has_standard_methods() {
    let cors = CorsConfig::default();
    assert!(cors.allowed_methods.contains(&"GET".to_string()));
    assert!(cors.allowed_methods.contains(&"POST".to_string()));
    assert!(!cors.allow_credentials);
    assert!(cors.max_age_secs.is_none());
}

#[test]
fn bootstrap_config_version_field() {
    let mut cfg = BootstrapConfig::default();
    assert!(cfg.version.is_none());
    cfg.version = Some("1.2.3".into());
    assert_eq!(cfg.version.as_deref(), Some("1.2.3"));
}

#[test]
fn validation_reports_limit_before_window() {
    let cfg = with_rate_limit(RateLimitKind::Memory { limit: 0, window_secs: 0 });
    match cfg.validate() {
        Err(Error::Config(m)) => assert_eq!(m, "rate_limit.limit must be > 0"),
        _ => panic!("expected a configuration error"),
    }
    let cfg = with_rate_limit(RateLimitKind::Memory { limit: 5, window_secs: 0 });
    match cfg.validate() {
        Err(Error::Config(m)) => assert_eq!(m, "rate_limit.window_secs must be > 0"),
        _ => panic!("expected a configuration error"),
    }
}

#[test]
fn validate_returns_the_configuration_unchanged() {
    let mut cfg = with_rate_limit(RateLimitKind::Memory { limit: 100, window_secs: 60 });
    cfg.bind_addr = "127.0.0.1:9000".into();
    let back = cfg.validate().unwrap();
    assert_eq!(back.bind_addr, "127.0.0.1:9000");
    assert!(matches!(back.rate_limit.kind, RateLimitKind::Memory { limit: 100, window_secs: 60 }));
}

#[test]
fn cors_default_is_recognised() {
    assert!(!CorsConfig::default().differs_from_default());
    let mut custom = CorsConfig::default();
    custom.allowed_origins.push("https://app.example.com".into());
    assert!(custom.differs_from_default());
    let mut creds = CorsConfig::default();
    creds.allow_credentials = true;
    assert!(creds.differs_from_default());
}

#[test]
fn config_load_error_is_prefixed() {
    match config_load_error("missing field") {
        Error::Config(m) => assert_eq!(m, "config: missing field"),
        _ => panic!("expected a configuration error"),
    }
}
