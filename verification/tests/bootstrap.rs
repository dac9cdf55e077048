use socle::bootstrap::{DatabaseStep, HookRef, LayerStep, TelemetryStep};
use socle::{
    BootstrapConfig, CorsConfig, Error, RateLimitBackend, RateLimitConfig, RateLimitExtractor,
    RateLimitKind, ServiceBootstrap,
};

#[test]
fn builder_methods_compose() {
    let b = ServiceBootstrap::new("svc")
        .with_version("1.2.3")
        .with_health_path("/hc")
        .with_body_limit(1024)
        .with_shutdown_timeout(1, 0)
        .with_cors()
        .with_cors_config(CorsConfig {
            allowed_origins: vec!["https://app.example.com".into()],
            allow_credentials: true,
            max_age_secs: Some(600),
            ..Default::default()
        })
        .with_readiness_check("noop")
        .with_router();
    assert_eq!(b.version, "1.2.3");
    assert_eq!(b.health_path, "/hc");
    assert_eq!(b.body_limit_bytes, 1024);
    assert!(b.cors);
    assert_eq!(b.readiness_checks, vec!["noop".to_string()]);
    assert!(b.router);
}

#[test]
fn builder_with_telemetry_sets_flag() {
    let b = ServiceBootstrap::new("svc").with_telemetry();
    assert!(b.telemetry);
}

#[test]
fn from_config_applies_all_fields() {
    let cfg = BootstrapConfig {
        bind_addr: "127.0.0.1:1234".into(),
        health_path: "/hc".into(),
        body_limit_bytes: 4096,
        shutdown_timeout_secs: 5,
        version: Some("9.9.9".into()),
        rate_limit: RateLimitConfig {
            kind: RateLimitKind::Memory { limit: 10, window_secs: 60 },
        },
        ..Default::default()
    };
    let b = ServiceBootstrap::from_config("svc", cfg).unwrap();
    assert_eq!(b.bind_addr.as_deref(), Some("127.0.0.1:1234"));
    assert_eq!(b.health_path, "/hc");
    assert_eq!(b.body_limit_bytes, 4096);
    assert_eq!(b.shutdown_timeout, (5, 0));
    assert_eq!(b.version, "9.9.9");
    assert_eq!(b.rate_limit, Some(RateLimitBackend { limit: 10, window_secs: 60 }));
}

#[test]
fn with_shutdown_hook_registers_in_order() {
    let b = ServiceBootstrap::new("svc")
        .with_shutdown_hook("first", 5)
        .with_shutdown_hook("second", 5);
    assert_eq!(b.shutdown_hooks.len(), 2);
    assert_eq!(b.shutdown_hooks[0].0, "first");
    assert_eq!(b.shutdown_hooks[1].0, "second");
}

#[test]
fn with_layer_registers_in_order() {
    let b = ServiceBootstrap::new("svc").with_layer().with_layer();
    assert_eq!(b.extra_layers, 2);
}

#[test]
fn with_database_sets_url() {
    let b = ServiceBootstrap::new("svc").with_database("postgres://localhost/test");
    assert_eq!(b.database_url.as_deref(), Some("postgres://localhost/test"));
}

#[test]
fn with_telemetry_init_sets_flag_and_fn() {
    let b = ServiceBootstrap::new("svc").with_telemetry_init();
    assert!(b.telemetry);
    assert!(b.telemetry_init);
}

#[test]
fn run_errors_without_from_config() {
    let b = ServiceBootstrap::new("svc").with_router();
    assert!(b.bind_addr.is_none());
    assert!(matches!(b.run_addr(), Err(Error::Config(_))));
}

#[test]
fn from_config_propagates_validation_errors() {
    let cfg = BootstrapConfig {
        rate_limit: RateLimitConfig { kind: RateLimitKind::Memory { limit: 0, window_secs: 1 } },
        ..Default::default()
    };
    match ServiceBootstrap::from_config("svc", cfg) {
        Err(Error::Config(m)) => assert_eq!(m, "rate_limit.limit must be > 0"),
        _ => panic!("expected a configuration error"),
    }
}

#[test]
fn from_config_enables_telemetry_and_cors_only_when_configured() {
    let b = ServiceBootstrap::from_config("svc", BootstrapConfig::default()).unwrap();
    assert!(!b.telemetry);
    assert!(!b.cors);
    assert_eq!(b.version, socle::bootstrap::LIBRARY_VERSION);
    let mut cfg = BootstrapConfig::default();
    cfg.otel_endpoint = Some("http://otel:4317".into());
    cfg.cors.allow_credentials = true;
    let b = ServiceBootstrap::from_config("svc", cfg).unwrap();
    assert!(b.telemetry);
    assert!(b.cors);
}

#[test]
fn telemetry_priority_is_provider_then_init_then_basic() {
    assert_eq!(ServiceBootstrap::new("s").telemetry_step(), TelemetryStep::Skip);
    assert_eq!(ServiceBootstrap::new("s").with_telemetry().telemetry_step(), TelemetryStep::Basic);
    assert_eq!(
        ServiceBootstrap::new("s").with_telemetry_init().telemetry_step(),
        TelemetryStep::InitFn
    );
    assert_eq!(
        ServiceBootstrap::new("s").with_telemetry_init().with_telemetry_provider().telemetry_step(),
        TelemetryStep::Provider
    );
}

#[test]
fn database_pool_wins_and_migrations_need_a_database() {
    let b = ServiceBootstrap::new("s").with_database("postgres://x").with_db_pool();
    assert!(matches!(b.database_step(), Ok(DatabaseStep::UsePool { migrate: false })));
    let b = ServiceBootstrap::new("s").with_database("postgres://x").with_migrations();
    match b.database_step() {
        Ok(DatabaseStep::Connect { url, migrate }) => {
            assert_eq!(url, "postgres://x");
            assert!(migrate);
        }
        _ => panic!("expected a connection step"),
    }
    let b = ServiceBootstrap::new("s").with_migrations();
    match b.database_step() {
        Err(Error::Config(m)) => {
            assert_eq!(m, "with_migrations(...) requires with_database(...) to be called first")
        }
        _ => panic!("expected a configuration error"),
    }
    assert!(matches!(ServiceBootstrap::new("s").database_step(), Ok(DatabaseStep::NoDatabase)));
}

#[test]
fn router_is_required() {
    assert!(matches!(ServiceBootstrap::new("x").router_check(), Err(Error::Config(_))));
    assert!(ServiceBootstrap::new("x").with_router().router_check().is_ok());
}

#[test]
fn layers_wrap_in_documented_order() {
    let b = ServiceBootstrap::new("s")
        .with_rate_limit(RateLimitBackend { limit: 5, window_secs: 60 })
        .with_rate_limit_extractor(RateLimitExtractor::Header("x-tenant".into()))
        .with_auth_provider()
        .with_layer()
        .with_layer()
        .with_body_limit(10);
    let plan = b.layer_plan();
    assert!(matches!(plan[0], LayerStep::Auth));
    assert!(matches!(plan[1], LayerStep::MemoryRateLimit(RateLimitBackend { limit: 5, window_secs: 60 })));
    assert!(matches!(plan[2], LayerStep::Extra(0)));
    assert!(matches!(plan[3], LayerStep::Extra(1)));
    assert!(matches!(plan[4], LayerStep::EnrichErrors));
    assert!(matches!(plan[5], LayerStep::Compression));
    assert!(matches!(plan[6], LayerStep::BodyLimit(10)));
    assert!(matches!(plan[11], LayerStep::SetRequestId));
    assert_eq!(plan.len(), 12);
    let b = b.with_rate_limit_provider().with_cors();
    let plan = b.layer_plan();
    assert!(matches!(plan[0], LayerStep::Auth));
    assert!(matches!(plan[1], LayerStep::RateLimitProvider));
    assert!(matches!(plan[5], LayerStep::Cors));
}

#[test]
fn shutdown_hooks_drain_in_reverse_with_flush_first() {
    let b = ServiceBootstrap::new("s")
        .with_shutdown_hook("flush-metrics", 5)
        .with_shutdown_hook("close-pool", 10);
    assert_eq!(b.shutdown_order(), vec![HookRef::Registered(1), HookRef::Registered(0)]);
    let b = b.with_telemetry_provider();
    assert_eq!(
        b.shutdown_order(),
        vec![HookRef::TelemetryFlush, HookRef::Registered(1), HookRef::Registered(0)]
    );
}

#[test]
fn cors_layer_only_when_configured() {
    let plain = ServiceBootstrap::new("svc").layer_plan();
    assert!(!plain.iter().any(|s| matches!(s, LayerStep::Cors)));
    let with = ServiceBootstrap::new("svc").with_cors().layer_plan();
    assert_eq!(with.iter().filter(|s| matches!(s, LayerStep::Cors)).count(), 1);
    let from_default = ServiceBootstrap::from_config("svc", BootstrapConfig::default()).unwrap();
    assert!(!from_default.layer_plan().iter().any(|s| matches!(s, LayerStep::Cors)));
}
