//! The service builder and the decisions `serve` takes while starting,
//! running and draining a service.
//!
//! [`ServiceBootstrap`] records what the builder methods were given as plain
//! values (the closures, layers and providers themselves stay with the
//! runtime that owns the router). Starting a service is a sequence of steps
//! whose order and choices are decided here: which telemetry set-up runs,
//! how the database pool is obtained, which layers wrap the router and in
//! what order, and in which order the shutdown hooks are drained.

use vstd::prelude::*;
use crate::config::{BootstrapConfig, CorsConfig, RateLimitKind};
use crate::error::Error;
use crate::rate_limit::{RateLimitBackend, RateLimitExtractor};
use crate::text::{concat2, opt_text};

verus! {

/// The version reported by the liveness endpoint unless overridden: the
/// version of this library.
pub const LIBRARY_VERSION: &'static str = "3.0.1";

/// Default graceful-shutdown deadline, in seconds.
pub const DEFAULT_SHUTDOWN_SECS: u64 = 30;

/// Deadline of the telemetry flush hook, in seconds.
pub const TELEMETRY_FLUSH_SECS: u64 = 30;

/// Builder for a microservice runtime: what each `with_*` call recorded.
#[derive(Debug)]
pub struct ServiceBootstrap {
    /// The service name.
    pub service_name: String,
    /// Whether telemetry is enabled.
    pub telemetry: bool,
    /// Whether a telemetry initialisation function was given.
    pub telemetry_init: bool,
    /// Whether a telemetry provider was given.
    pub telemetry_provider: bool,
    /// The database URL, if any.
    pub database_url: Option<String>,
    /// Whether a pre-built pool was given.
    pub db_pool: bool,
    /// Whether migrations were given.
    pub migrator: bool,
    /// How many extra layers were registered.
    pub extra_layers: usize,
    /// The in-memory rate limiter, if configured.
    pub rate_limit: Option<RateLimitBackend>,
    /// How the in-memory rate limiter keys requests.
    pub ratelimit_extractor: RateLimitExtractor,
    /// Whether a rate-limit provider was given.
    pub rate_limit_provider: bool,
    /// Whether an auth provider was given.
    pub auth_provider: bool,
    /// Whether a CORS layer was given.
    pub cors: bool,
    /// The structured CORS configuration the layer was built from, if any.
    pub cors_config: Option<CorsConfig>,
    /// Whether the router builder was given.
    pub router: bool,
    /// The version reported by the liveness endpoint.
    pub version: String,
    /// The health endpoints' base path.
    pub health_path: String,
    /// The request body limit in bytes.
    pub body_limit_bytes: usize,
    /// The graceful-shutdown deadline: seconds and extra nanoseconds.
    pub shutdown_timeout: (u64, u32),
    /// The shutdown hooks, by name and deadline in seconds, in registration
    /// order.
    pub shutdown_hooks: Vec<(String, u64)>,
    /// The readiness checks, by name, in registration order.
    pub readiness_checks: Vec<String>,
    /// The bind address loaded from configuration, if any.
    pub bind_addr: Option<String>,
    /// Whether an OpenAPI document was given.
    pub openapi: bool,
    /// Where the OpenAPI document is served.
    pub openapi_spec_path: String,
    /// Where the Swagger UI is served.
    pub openapi_ui_path: String,
}

/// The builder state right after [`ServiceBootstrap::new`].
pub open spec fn is_fresh(b: ServiceBootstrap, service_name: Seq<char>) -> bool {
    &&& b.service_name@ == service_name
    &&& !b.telemetry && !b.telemetry_init && !b.telemetry_provider
    &&& b.database_url is None && !b.db_pool && !b.migrator
    &&& b.extra_layers == 0
    &&& b.rate_limit is None
    &&& b.ratelimit_extractor is Ip
    &&& !b.rate_limit_provider && !b.auth_provider
    &&& !b.cors && b.cors_config is None
    &&& !b.router
    &&& b.version@ == LIBRARY_VERSION@
    &&& b.health_path@ == "/health"@
    &&& b.body_limit_bytes == 2 * 1024 * 1024
    &&& b.shutdown_timeout == (DEFAULT_SHUTDOWN_SECS, 0u32)
    &&& b.shutdown_hooks@.len() == 0
    &&& b.readiness_checks@.len() == 0
    &&& b.bind_addr is None
    &&& !b.openapi
    &&& b.openapi_spec_path@ == "/openapi.json"@
    &&& b.openapi_ui_path@ == "/docs"@
}

impl ServiceBootstrap {
    /// Start a new bootstrap for a service.
    pub fn new(service_name: &str) -> (r: Self)
        ensures
            is_fresh(r, service_name@),
    {
        ServiceBootstrap {
            service_name: String::from_str(service_name),
            telemetry: false,
            telemetry_init: false,
            telemetry_provider: false,
            database_url: None,
            db_pool: false,
            migrator: false,
            extra_layers: 0,
            rate_limit: None,
            ratelimit_extractor: RateLimitExtractor::Ip,
            rate_limit_provider: false,
            auth_provider: false,
            cors: false,
            cors_config: None,
            router: false,
            version: String::from_str(LIBRARY_VERSION),
            health_path: String::from_str("/health"),
            body_limit_bytes: 2097152,
            shutdown_timeout: (DEFAULT_SHUTDOWN_SECS, 0),
            shutdown_hooks: Vec::new(),
            readiness_checks: Vec::new(),
            bind_addr: None,
            openapi: false,
            openapi_spec_path: String::from_str("/openapi.json"),
            openapi_ui_path: String::from_str("/docs"),
        }
    }

    /// Override the maximum request body size in bytes.
    pub fn with_body_limit(self, bytes: usize) -> (r: Self)
        ensures
            r == (ServiceBootstrap { body_limit_bytes: bytes, ..self }),
    {
        ServiceBootstrap { body_limit_bytes: bytes, ..self }
    }

    /// Set the graceful-shutdown deadline (seconds and extra nanoseconds).
    pub fn with_shutdown_timeout(self, secs: u64, nanos: u32) -> (r: Self)
        ensures
            r == (ServiceBootstrap { shutdown_timeout: (secs, nanos), ..self }),
    {
        ServiceBootstrap { shutdown_timeout: (secs, nanos), ..self }
    }

    /// Register a shutdown hook, by name and deadline in seconds.
    pub fn with_shutdown_hook(self, name: &str, timeout_secs: u64) -> (r: Self)
        ensures
            r.shutdown_hooks@.len() == self.shutdown_hooks@.len() + 1,
            forall|i: int|
                0 <= i < self.shutdown_hooks@.len() ==> r.shutdown_hooks@[i]
                    == self.shutdown_hooks@[i],
            r.shutdown_hooks@.last().0@ == name@,
            r.shutdown_hooks@.last().1 == timeout_secs,
            r == (ServiceBootstrap { shutdown_hooks: r.shutdown_hooks, ..self }),
    {
        let mut b = self;
        b.shutdown_hooks.push((String::from_str(name), timeout_secs));
        b
    }

    /// Register a readiness check (or a health probe) by name.
    pub fn with_readiness_check(self, name: &str) -> (r: Self)
        ensures
            r.readiness_checks@.len() == self.readiness_checks@.len() + 1,
            forall|i: int|
                0 <= i < self.readiness_checks@.len() ==> r.readiness_checks@[i]
                    == self.readiness_checks@[i],
            r.readiness_checks@.last()@ == name@,
            r == (ServiceBootstrap { readiness_checks: r.readiness_checks, ..self }),
    {
        let mut b = self;
        b.readiness_checks.push(String::from_str(name));
        b
    }

    /// Override the version reported by the liveness endpoint.
    pub fn with_version(self, version: &str) -> (r: Self)
        ensures
            r.version@ == version@,
            r == (ServiceBootstrap { version: r.version, ..self }),
    {
        ServiceBootstrap { version: String::from_str(version), ..self }
    }

    /// Override the base path of the health endpoints.
    pub fn with_health_path(self, path: &str) -> (r: Self)
        ensures
            r.health_path@ == path@,
            r == (ServiceBootstrap { health_path: r.health_path, ..self }),
    {
        ServiceBootstrap { health_path: String::from_str(path), ..self }
    }

    /// Enable basic tracing.
    pub fn with_telemetry(self) -> (r: Self)
        ensures
            r == (ServiceBootstrap { telemetry: true, ..self }),
    {
        ServiceBootstrap { telemetry: true, ..self }
    }

    /// Record a telemetry initialisation function; implies telemetry.
    pub fn with_telemetry_init(self) -> (r: Self)
        ensures
            r == (ServiceBootstrap { telemetry: true, telemetry_init: true, ..self }),
    {
        ServiceBootstrap { telemetry: true, telemetry_init: true, ..self }
    }

    /// Record a telemetry provider; implies telemetry.
    pub fn with_telemetry_provider(self) -> (r: Self)
        ensures
            r == (ServiceBootstrap { telemetry: true, telemetry_provider: true, ..self }),
    {
        ServiceBootstrap { telemetry: true, telemetry_provider: true, ..self }
    }

    /// Connect to the database at the given URL.
    pub fn with_database(self, url: &str) -> (r: Self)
        ensures
            opt_text(r.database_url) == Some(url@),
            r == (ServiceBootstrap { database_url: r.database_url, ..self }),
    {
        ServiceBootstrap { database_url: Some(String::from_str(url)), ..self }
    }

    /// Record a pre-built pool; it takes precedence over a URL.
    pub fn with_db_pool(self) -> (r: Self)
        ensures
            r == (ServiceBootstrap { db_pool: true, ..self }),
    {
        ServiceBootstrap { db_pool: true, ..self }
    }

    /// Record migrations to run at startup.
    pub fn with_migrations(self) -> (r: Self)
        ensures
            r == (ServiceBootstrap { migrator: true, ..self }),
    {
        ServiceBootstrap { migrator: true, ..self }
    }

    /// Enable the in-process rate limiter.
    pub fn with_rate_limit(self, config: RateLimitBackend) -> (r: Self)
        ensures
            r == (ServiceBootstrap { rate_limit: Some(config), ..self }),
    {
        ServiceBootstrap { rate_limit: Some(config), ..self }
    }

    /// Override how the rate limiter keys requests.
    pub fn with_rate_limit_extractor(self, extractor: RateLimitExtractor) -> (r: Self)
        ensures
            r == (ServiceBootstrap { ratelimit_extractor: extractor, ..self }),
    {
        ServiceBootstrap { ratelimit_extractor: extractor, ..self }
    }

    /// Record a rate-limit provider; it takes priority over the in-process
    /// limiter.
    pub fn with_rate_limit_provider(self) -> (r: Self)
        ensures
            r == (ServiceBootstrap { rate_limit_provider: true, ..self }),
    {
        ServiceBootstrap { rate_limit_provider: true, ..self }
    }

    /// Record an auth provider.
    pub fn with_auth_provider(self) -> (r: Self)
        ensures
            r == (ServiceBootstrap { auth_provider: true, ..self }),
    {
        ServiceBootstrap { auth_provider: true, ..self }
    }

    /// Record a ready-made CORS layer.
    pub fn with_cors(self) -> (r: Self)
        ensures
            r == (ServiceBootstrap { cors: true, ..self }),
    {
        ServiceBootstrap { cors: true, ..self }
    }

    /// Record a CORS layer built from a structured configuration.
    pub fn with_cors_config(self, cfg: CorsConfig) -> (r: Self)
        ensures
            r == (ServiceBootstrap { cors: true, cors_config: Some(cfg), ..self }),
    {
        ServiceBootstrap { cors: true, cors_config: Some(cfg), ..self }
    }

    /// Record the router builder.
    pub fn with_router(self) -> (r: Self)
        ensures
            r == (ServiceBootstrap { router: true, ..self }),
    {
        ServiceBootstrap { router: true, ..self }
    }

    /// Register one more extra layer (applied innermost first).
    pub fn with_layer(self) -> (r: Self)
        requires
            self.extra_layers < usize::MAX,
        ensures
            r == (ServiceBootstrap { extra_layers: (self.extra_layers + 1) as usize, ..self }),
    {
        let n = self.extra_layers + 1;
        ServiceBootstrap { extra_layers: n, ..self }
    }

    /// Record an OpenAPI document to serve.
    pub fn with_openapi(self) -> (r: Self)
        ensures
            r == (ServiceBootstrap { openapi: true, ..self }),
    {
        ServiceBootstrap { openapi: true, ..self }
    }

    /// Override where the OpenAPI document and the Swagger UI are served.
    pub fn with_openapi_paths(self, spec_path: &str, ui_path: &str) -> (r: Self)
        ensures
            r.openapi_spec_path@ == spec_path@,
            r.openapi_ui_path@ == ui_path@,
            r == (ServiceBootstrap {
                openapi_spec_path: r.openapi_spec_path,
                openapi_ui_path: r.openapi_ui_path,
                ..self
            }),
    {
        ServiceBootstrap {
            openapi_spec_path: String::from_str(spec_path),
            openapi_ui_path: String::from_str(ui_path),
            ..self
        }
    }
}

// ── From configuration ───────────────────────────────────────────────────────

/// What [`ServiceBootstrap::from_config`] builds from a valid configuration.
pub open spec fn configured_from(b: ServiceBootstrap, name: Seq<char>, cfg: BootstrapConfig) -> bool {
    &&& b.service_name@ == name
    &&& b.health_path@ == cfg.health_path@
    &&& b.body_limit_bytes == cfg.body_limit_bytes
    &&& b.shutdown_timeout == (cfg.shutdown_timeout_secs, 0u32)
    &&& b.version@ == (match cfg.version {
        Some(v) => v@,
        None => LIBRARY_VERSION@,
    })
    &&& opt_text(b.bind_addr) == Some(cfg.bind_addr@)
    &&& b.cors == !cfg.cors.is_default()
    &&& (b.cors ==> b.cors_config == Some(cfg.cors))
    &&& (!b.cors ==> b.cors_config is None)
    &&& b.telemetry == (cfg.otel_endpoint is Some)
    &&& !b.telemetry_init && !b.telemetry_provider
    &&& opt_text(b.database_url) == opt_text(cfg.database_url)
    &&& b.rate_limit == (match cfg.rate_limit.kind {
        RateLimitKind::Disabled => None,
        RateLimitKind::Memory { limit, window_secs } => Some(RateLimitBackend { limit, window_secs }),
    })
    &&& b.ratelimit_extractor is Ip
    &&& !b.db_pool && !b.migrator && b.extra_layers == 0
    &&& !b.rate_limit_provider && !b.auth_provider && !b.router && !b.openapi
    &&& b.shutdown_hooks@.len() == 0 && b.readiness_checks@.len() == 0
    &&& b.openapi_spec_path@ == "/openapi.json"@
    &&& b.openapi_ui_path@ == "/docs"@
}

impl ServiceBootstrap {
    /// Build from a configuration: it is validated first, and its error is
    /// returned unchanged when it fails.
    pub fn from_config(service_name: &str, cfg: BootstrapConfig) -> (r: Result<Self, Error>)
        ensures
            cfg.validation_error() is None <==> r is Ok,
            r matches Ok(b) ==> configured_from(b, service_name@, cfg),
            r matches Ok(b) ==> opt_text(b.database_url) == opt_text(cfg.database_url)
                && b.health_path@ == cfg.health_path@ && b.body_limit_bytes == cfg.body_limit_bytes
                && b.shutdown_timeout == (cfg.shutdown_timeout_secs, 0u32) && b.telemetry == (
            cfg.otel_endpoint is Some) && opt_text(b.bind_addr) == Some(cfg.bind_addr@),
            cfg.validation_error() matches Some(m) ==> (r matches Err(Error::Config(e)) && e@ == m),
    {
        let ghost cfg0 = cfg;
        let cfg = match cfg.validate() {
            Ok(c) => c,
            Err(e) => {
                return Err(e);
            },
        };
        let mut b = ServiceBootstrap::new(service_name).with_health_path(
            cfg.health_path.as_str(),
        ).with_body_limit(cfg.body_limit_bytes).with_shutdown_timeout(
            cfg.shutdown_timeout_secs,
            0,
        );
        if let Some(v) = &cfg.version {
            b = b.with_version(v.as_str());
        }
        b.bind_addr = Some(String::from_str(cfg.bind_addr.as_str()));
        let custom_cors = cfg.cors.differs_from_default();
        let telemetry = cfg.otel_endpoint.is_some();
        let database_url = match &cfg.database_url {
            Some(u) => Some(String::from_str(u.as_str())),
            None => None,
        };
        let rate_limit = match cfg.rate_limit.kind {
            RateLimitKind::Disabled => None,
            RateLimitKind::Memory { limit, window_secs } => Some(
                RateLimitBackend { limit, window_secs },
            ),
        };
        if custom_cors {
            b = b.with_cors_config(cfg.cors);
        }
        if telemetry {
            b = b.with_telemetry();
        }
        b.database_url = database_url;
        b.rate_limit = rate_limit;
        proof {
            assert(cfg == cfg0);
        }
        Ok(b)
    }

    /// The address `run` binds: the one loaded from configuration.
    pub fn run_addr(&self) -> (r: Result<String, Error>)
        ensures
            self.bind_addr is Some <==> r is Ok,
            r matches Ok(a) ==> opt_text(self.bind_addr) == Some(a@),
            r matches Err(e) ==> (e matches Error::Config(m) && m@
                == "run() requires from_config(...) to set bind_addr"@),
    {
        match &self.bind_addr {
            Some(a) => Ok(String::from_str(a.as_str())),
            None => Err(
                Error::Config(String::from_str("run() requires from_config(...) to set bind_addr")),
            ),
        }
    }
}

// ── Serving ──────────────────────────────────────────────────────────────────

/// How telemetry is initialised at startup.
#[derive(Debug, Clone, Copy, PartialEq, Eq, Structural)]
pub enum TelemetryStep {
    /// Telemetry is off.
    Skip,
    /// Call the provider's `init`, and flush it first when draining.
    Provider,
    /// Call the initialisation function.
    InitFn,
    /// Install the basic `tracing` subscriber.
    Basic,
}

/// How the database pool is obtained at startup.
#[derive(Debug, Clone)]
pub enum DatabaseStep {
    /// No database.
    NoDatabase,
    /// Use the pre-built pool, running migrations first when asked.
    UsePool {
        /// Whether to run migrations.
        migrate: bool,
    },
    /// Connect to the URL, then run migrations when asked.
    Connect {
        /// The database URL.
        url: String,
        /// Whether to run migrations.
        migrate: bool,
    },
}

/// One layer wrapped around the router, in the order they are applied
/// (first = innermost).
#[derive(Debug, Clone)]
pub enum LayerStep {
    /// The rate-limit provider's layer.
    RateLimitProvider,
    /// The in-process rate limiter with this configuration, keyed by the
    /// builder's extractor.
    MemoryRateLimit(RateLimitBackend),
    /// The auth provider's layer.
    Auth,
    /// The extra layer registered at this position.
    Extra(usize),
    /// The Problem+JSON enrichment of bare error responses.
    EnrichErrors,
    /// The CORS layer.
    Cors,
    /// Response compression.
    Compression,
    /// The request body limit, in bytes.
    BodyLimit(usize),
    /// Panic recovery.
    CatchPanic,
    /// Request tracing spans.
    Trace,
    /// Copying `x-request-id` to the response.
    PropagateRequestId,
    /// Making the request id visible to the handler's task.
    RequestIdTaskLocal,
    /// Setting `x-request-id` (UUID v7) when the request has none.
    SetRequestId,
}

/// A shutdown hook to run while draining.
#[derive(Debug, Clone, Copy, PartialEq, Eq, Structural)]
pub enum HookRef {
    /// The hook registered at this position.
    Registered(usize),
    /// The telemetry provider's flush.
    TelemetryFlush,
}

/// The telemetry set-up of a builder: off unless enabled; a provider wins
/// over an initialisation function, which wins over the basic subscriber.
pub open spec fn telemetry_choice(b: ServiceBootstrap) -> TelemetryStep {
    if !b.telemetry {
        TelemetryStep::Skip
    } else if b.telemetry_provider {
        TelemetryStep::Provider
    } else if b.telemetry_init {
        TelemetryStep::InitFn
    } else {
        TelemetryStep::Basic
    }
}

/// The detail of the error for migrations without a database.
pub open spec fn migrations_without_database() -> Seq<char> {
    "with_migrations(...) requires with_database(...) to be called first"@
}

/// The detail of the error for a missing router.
pub open spec fn missing_router() -> Seq<char> {
    "with_router(...) was never called"@
}

/// The rate-limit layer, if any: a provider wins over the in-process
/// limiter.
pub open spec fn rate_layers(b: ServiceBootstrap) -> Seq<LayerStep> {
    if b.rate_limit_provider {
        seq![LayerStep::RateLimitProvider]
    } else {
        match b.rate_limit {
            Some(backend) => seq![LayerStep::MemoryRateLimit(backend)],
            None => Seq::empty(),
        }
    }
}

/// The auth layer, if any.
pub open spec fn auth_layers(b: ServiceBootstrap) -> Seq<LayerStep> {
    if b.auth_provider {
        seq![LayerStep::Auth]
    } else {
        Seq::empty()
    }
}

/// The extra layers, in registration order.
pub open spec fn extra_layer_steps(n: usize) -> Seq<LayerStep> {
    Seq::new(n as nat, |i: int| LayerStep::Extra(i as usize))
}

/// The CORS layer, if any.
pub open spec fn cors_layers(b: ServiceBootstrap) -> Seq<LayerStep> {
    if b.cors {
        seq![LayerStep::Cors]
    } else {
        Seq::empty()
    }
}

/// The cross-cutting stack, outermost last.
pub open spec fn outer_layers(b: ServiceBootstrap) -> Seq<LayerStep> {
    seq![
        LayerStep::Compression,
        LayerStep::BodyLimit(b.body_limit_bytes),
        LayerStep::CatchPanic,
        LayerStep::Trace,
        LayerStep::PropagateRequestId,
        LayerStep::RequestIdTaskLocal,
        LayerStep::SetRequestId,
    ]
}

/// The layers wrapped around the router, innermost first. The rate limiter
/// wraps auth, so requests that auth refuses are still counted.
pub open spec fn layer_order(b: ServiceBootstrap) -> Seq<LayerStep> {
    auth_layers(b) + rate_layers(b) + extra_layer_steps(b.extra_layers) + seq![
        LayerStep::EnrichErrors,
    ] + cors_layers(b) + outer_layers(b)
}

/// The hooks in registration order: the registered ones, then the
/// telemetry flush when a provider initialised telemetry.
pub open spec fn registered_hooks(b: ServiceBootstrap) -> Seq<HookRef> {
    let user = Seq::new(b.shutdown_hooks@.len(), |i: int| HookRef::Registered(i as usize));
    if telemetry_choice(b) == TelemetryStep::Provider {
        user.push(HookRef::TelemetryFlush)
    } else {
        user
    }
}

impl ServiceBootstrap {
    /// How telemetry is initialised.
    pub fn telemetry_step(&self) -> (r: TelemetryStep)
        ensures
            r == telemetry_choice(*self),
    {
        if !self.telemetry {
            TelemetryStep::Skip
        } else if self.telemetry_provider {
            TelemetryStep::Provider
        } else if self.telemetry_init {
            TelemetryStep::InitFn
        } else {
            TelemetryStep::Basic
        }
    }

    /// How the database pool is obtained: a pre-built pool wins over a URL;
    /// migrations with neither are a configuration error.
    pub fn database_step(&self) -> (r: Result<DatabaseStep, Error>)
        ensures
            self.db_pool ==> (r matches Ok(DatabaseStep::UsePool { migrate }) && migrate
                == self.migrator),
            !self.db_pool && self.database_url is Some ==> (r matches Ok(
                DatabaseStep::Connect { url, migrate },
            ) && Some(url@) == opt_text(self.database_url) && migrate == self.migrator),
            !self.db_pool && self.database_url is None && self.migrator ==> (r matches Err(
                Error::Config(m),
            ) && m@ == migrations_without_database()),
            !self.db_pool && self.database_url is None && !self.migrator ==> (r matches Ok(
                DatabaseStep::NoDatabase,
            )),
    {
        if self.db_pool {
            Ok(DatabaseStep::UsePool { migrate: self.migrator })
        } else if let Some(url) = &self.database_url {
            Ok(DatabaseStep::Connect { url: String::from_str(url.as_str()), migrate: self.migrator })
        } else if self.migrator {
            Err(
                Error::Config(
                    String::from_str(
                        "with_migrations(...) requires with_database(...) to be called first",
                    ),
                ),
            )
        } else {
            Ok(DatabaseStep::NoDatabase)
        }
    }

    /// The router builder must have been given.
    pub fn router_check(&self) -> (r: Result<(), Error>)
        ensures
            r is Ok <==> self.router,
            r matches Err(e) ==> (e matches Error::Config(m) && m@ == missing_router()),
    {
        if self.router {
            Ok(())
        } else {
            Err(Error::Config(String::from_str("with_router(...) was never called")))
        }
    }

    /// The layers wrapped around the router, innermost first: auth, rate
    /// limiting around it (a provider wins over the in-process limiter), so
    /// that unauthenticated requests are counted too, then the extra layers
    /// in registration order, error enrichment, CORS, then the cross-cutting
    /// stack ending with the request-id layer outermost.
    pub fn layer_plan(&self) -> (r: Vec<LayerStep>)
        ensures
            r@ == layer_order(*self),
            r@.len() >= 7,
            r@.subrange(r@.len() - 7, r@.len() as int) == seq![
                LayerStep::Compression,
                LayerStep::BodyLimit(self.body_limit_bytes),
                LayerStep::CatchPanic,
                LayerStep::Trace,
                LayerStep::PropagateRequestId,
                LayerStep::RequestIdTaskLocal,
                LayerStep::SetRequestId,
            ],
            forall|i: int, j: int|
                #![trigger r@[i], r@[j]]
                0 <= i < r@.len() && 0 <= j < r@.len() && r@[i] is CatchPanic && r@[j] is Trace
                    ==> i < j,
    {
        let mut v: Vec<LayerStep> = Vec::new();
        self.push_inner_layers(&mut v);
        let ghost mid = v@;
        v.push(LayerStep::EnrichErrors);
        if self.cors {
            v.push(LayerStep::Cors);
        }
        proof {
            assert(v@ =~= mid + seq![LayerStep::EnrichErrors] + cors_layers(*self));
        }
        self.push_outer_layers(&mut v);
        proof {
            assert(v@ =~= layer_order(*self));
            lemma_panic_recovery_inside_trace(*self);
        }
        v
    }

    /// Append the auth, rate-limit and extra layers.
    fn push_inner_layers(&self, v: &mut Vec<LayerStep>)
        ensures
            final(v)@ == old(v)@ + auth_layers(*self) + rate_layers(*self) + extra_layer_steps(
                self.extra_layers,
            ),
    {
        let ghost start = v@;
        if self.auth_provider {
            v.push(LayerStep::Auth);
        }
        proof {
            assert(v@ =~= start + auth_layers(*self));
        }
        if self.rate_limit_provider {
            v.push(LayerStep::RateLimitProvider);
        } else if let Some(backend) = self.rate_limit {
            v.push(LayerStep::MemoryRateLimit(backend));
        }
        let ghost head = v@;
        proof {
            assert(head =~= start + auth_layers(*self) + rate_layers(*self));
            assert(v@ =~= head + extra_layer_steps(0));
        }
        let mut i: usize = 0;
        while i < self.extra_layers
            invariant
                i <= self.extra_layers,
                v@ == head + extra_layer_steps(i),
            decreases self.extra_layers - i,
        {
            v.push(LayerStep::Extra(i));
            i = i + 1;
            proof {
                assert(v@ =~= head + extra_layer_steps(i));
            }
        }
    }

    /// Append the cross-cutting stack.
    fn push_outer_layers(&self, v: &mut Vec<LayerStep>)
        ensures
            final(v)@ == old(v)@ + outer_layers(*self),
            final(v)@ == old(v)@ + seq![
                LayerStep::Compression,
                LayerStep::BodyLimit(self.body_limit_bytes),
                LayerStep::CatchPanic,
                LayerStep::Trace,
                LayerStep::PropagateRequestId,
                LayerStep::RequestIdTaskLocal,
                LayerStep::SetRequestId,
            ],
    {
        let ghost start = v@;
        v.push(LayerStep::Compression);
        v.push(LayerStep::BodyLimit(self.body_limit_bytes));
        v.push(LayerStep::CatchPanic);
        v.push(LayerStep::Trace);
        v.push(LayerStep::PropagateRequestId);
        v.push(LayerStep::RequestIdTaskLocal);
        v.push(LayerStep::SetRequestId);
        proof {
            assert(v@ =~= start + outer_layers(*self));
        }
    }

    /// The order in which shutdown hooks are drained: the reverse of their
    /// registration, the telemetry flush (registered last) running first.
    pub fn shutdown_order(&self) -> (r: Vec<HookRef>)
        ensures
            r@.len() == registered_hooks(*self).len(),
            forall|i: int|
                0 <= i < r@.len() ==> #[trigger] r@[i] == registered_hooks(*self)[r@.len() - 1 - i],
    {
        let ghost reg = registered_hooks(*self);
        let n = self.shutdown_hooks.len();
        let mut r: Vec<HookRef> = Vec::new();
        if self.telemetry_step() == TelemetryStep::Provider {
            r.push(HookRef::TelemetryFlush);
        }
        let ghost off: int = r@.len() as int;
        let mut k: usize = n;
        while k > 0
            invariant
                k <= n,
                n == self.shutdown_hooks@.len(),
                reg == registered_hooks(*self),
                reg.len() == n + off,
                off == 0 || off == 1,
                off == 1 ==> reg[n as int] == HookRef::TelemetryFlush && r@[0] == HookRef::TelemetryFlush,
                r@.len() == off + (n - k),
                forall|i: int| 0 <= i < r@.len() ==> #[trigger] r@[i] == reg[reg.len() - 1 - i],
            decreases k,
        {
            k = k - 1;
            r.push(HookRef::Registered(k));
            proof {
                assert(reg[k as int] == HookRef::Registered(k));
            }
        }
        r
    }
}

// ── Laws ─────────────────────────────────────────────────────────────────────

/// CORS is opt-in: the router is wrapped in a CORS layer exactly when one
/// was configured (with `with_cors`, `with_cors_config`, or a configuration
/// whose CORS policy differs from the default); a new builder has none.
pub proof fn lemma_cors_is_opt_in(b: ServiceBootstrap)
    ensures
        (exists|i: int| 0 <= i < layer_order(b).len() && #[trigger] layer_order(b)[i] is Cors)
            <==> b.cors,
        forall|name: Seq<char>| is_fresh(b, name) ==> !b.cors,
{
    let head = auth_layers(b) + rate_layers(b) + extra_layer_steps(b.extra_layers) + seq![
        LayerStep::EnrichErrors,
    ];
    let lo = layer_order(b);
    assert(lo == head + cors_layers(b) + outer_layers(b));
    if b.cors {
        let k = head.len() as int;
        assert(lo[k] == cors_layers(b)[0]);
        assert(lo[k] is Cors);
    } else {
        assert(cors_layers(b).len() == 0);
        assert forall|i: int| 0 <= i < lo.len() implies !(#[trigger] lo[i] is Cors) by {
            let r = auth_layers(b);
            let a = rate_layers(b);
            let e = extra_layer_steps(b.extra_layers);
            if i < r.len() {
                assert(lo[i] == r[i]);
            } else if i < r.len() + a.len() {
                assert(lo[i] == a[i - r.len()]);
            } else if i < r.len() + a.len() + e.len() {
                assert(lo[i] == e[i - r.len() - a.len()]);
            } else if i < head.len() {
                assert(lo[i] == LayerStep::EnrichErrors);
            } else {
                assert(lo[i] == outer_layers(b)[i - head.len()]);
            }
        }
    }
}

/// Panic recovery sits inside the trace layer: every plan ends with the
/// cross-cutting stack compression, body limit, panic recovery, tracing,
/// request-id propagation, request-id task-local and request-id setting,
/// innermost first, so a handler's panic is turned into a 500 that the
/// request span still records; no panic-recovery layer comes after a trace
/// layer anywhere in the plan.
pub proof fn lemma_panic_recovery_inside_trace(b: ServiceBootstrap)
    ensures
        layer_order(b).len() >= 7,
        layer_order(b).subrange(layer_order(b).len() - 7, layer_order(b).len() as int) == seq![
            LayerStep::Compression,
            LayerStep::BodyLimit(b.body_limit_bytes),
            LayerStep::CatchPanic,
            LayerStep::Trace,
            LayerStep::PropagateRequestId,
            LayerStep::RequestIdTaskLocal,
            LayerStep::SetRequestId,
        ],
        forall|i: int, j: int|
            #![trigger layer_order(b)[i], layer_order(b)[j]]
            0 <= i < layer_order(b).len() && 0 <= j < layer_order(b).len() && layer_order(b)[i] is CatchPanic
                && layer_order(b)[j] is Trace ==> i < j,
{
    let lo = layer_order(b);
    let a = auth_layers(b);
    let r = rate_layers(b);
    let e = extra_layer_steps(b.extra_layers);
    let c = cors_layers(b);
    let pre = a + r + e + seq![LayerStep::EnrichErrors] + c;
    let tail = outer_layers(b);
    assert(lo =~= pre + tail);
    let n = lo.len() as int;
    let p = pre.len() as int;
    assert(n == p + 7);
    assert(lo.subrange(n - 7, n) =~= tail);
    assert forall|k: int| 0 <= k < p implies !(#[trigger] lo[k] is CatchPanic) && !(lo[k] is Trace) by {
        assert(lo[k] == pre[k]);
        if k < a.len() {
            assert(pre[k] == a[k]);
        } else if k < a.len() + r.len() {
            assert(pre[k] == r[k - a.len()]);
        } else if k < a.len() + r.len() + e.len() {
            assert(pre[k] == e[k - a.len() - r.len()]);
        } else if k == a.len() + r.len() + e.len() {
            assert(pre[k] == LayerStep::EnrichErrors);
        } else {
            assert(pre[k] == c[k - a.len() - r.len() - e.len() - 1]);
        }
    }
    assert forall|i: int, j: int|
        0 <= i < n && 0 <= j < n && #[trigger] lo[i] is CatchPanic && #[trigger] lo[j] is Trace
        implies i < j by {
        if i >= p {
            assert(lo[i] == tail[i - p]);
        }
        if j >= p {
            assert(lo[j] == tail[j - p]);
        }
    }
}

/// The rate limiter wraps auth: when both are configured, auth is the
/// innermost layer and the rate limiter the next one out, so every request,
/// authenticated or not, is counted.
pub proof fn lemma_rate_limit_wraps_auth(b: ServiceBootstrap)
    requires
        b.auth_provider,
        b.rate_limit_provider || b.rate_limit is Some,
    ensures
        layer_order(b)[0] is Auth,
        layer_order(b)[1] is RateLimitProvider || layer_order(b)[1] is MemoryRateLimit,
{
    let lo = layer_order(b);
    let head = auth_layers(b) + rate_layers(b);
    assert(head.len() == 2);
    assert(lo[0] == head[0]);
    assert(lo[1] == head[1]);
}

/// A builder made from a configuration carries what the configuration
/// says: its database URL (so `serve` connects to that database), bind
/// address, health path, body limit, shutdown deadline and telemetry
/// switch, and the in-process rate limiter exactly when the configuration
/// selects it.
pub proof fn lemma_configured_from_carries_config(
    b: ServiceBootstrap,
    name: Seq<char>,
    cfg: BootstrapConfig,
)
    requires
        configured_from(b, name, cfg),
    ensures
        opt_text(b.database_url) == opt_text(cfg.database_url),
        opt_text(b.bind_addr) == Some(cfg.bind_addr@),
        b.health_path@ == cfg.health_path@,
        b.body_limit_bytes == cfg.body_limit_bytes,
        b.shutdown_timeout == (cfg.shutdown_timeout_secs, 0u32),
        b.telemetry <==> cfg.otel_endpoint is Some,
        b.rate_limit is Some <==> cfg.rate_limit.kind is Memory,
        cfg.database_url is Some ==> !b.db_pool && b.database_url is Some,
{
}

} // verus!
