//! Layered configuration consumed by the service builder, and its
//! cross-field validation.

use vstd::prelude::*;
use crate::error::Error;

verus! {

/// Logging output format.
#[derive(Debug, Clone, Copy, PartialEq, Eq, Structural)]
pub enum LogFormat {
    /// Pretty, human-readable lines.
    Pretty,
    /// One JSON object per line, for log shippers.
    Json,
}

impl Default for LogFormat {
    fn default() -> (r: Self)
        ensures
            r == LogFormat::Pretty,
    {
        LogFormat::Pretty
    }
}

/// Backend store selection for [`RateLimitConfig`].
#[derive(Debug, Clone, Copy, PartialEq, Eq, Structural)]
pub enum RateLimitKind {
    /// No rate limiting.
    Disabled,
    /// In-memory limiter.
    Memory {
        /// Max requests per window.
        limit: u32,
        /// Window in seconds.
        window_secs: u64,
    },
}

impl Default for RateLimitKind {
    fn default() -> (r: Self)
        ensures
            r == RateLimitKind::Disabled,
    {
        RateLimitKind::Disabled
    }
}

/// Rate-limiting configuration.
#[derive(Debug, Clone, Copy, PartialEq, Eq, Structural)]
pub struct RateLimitConfig {
    /// Backend store and capacity settings.
    pub kind: RateLimitKind,
}

impl Default for RateLimitConfig {
    fn default() -> (r: Self)
        ensures
            r.kind == RateLimitKind::Disabled,
    {
        RateLimitConfig { kind: RateLimitKind::Disabled }
    }
}

/// Structured CORS configuration.
#[derive(Debug, Clone)]
pub struct CorsConfig {
    /// Allowed origins (exact match). `["*"]` allows any origin.
    pub allowed_origins: Vec<String>,
    /// Allowed methods.
    pub allowed_methods: Vec<String>,
    /// Allowed request headers.
    pub allowed_headers: Vec<String>,
    /// Headers exposed to the browser.
    pub expose_headers: Vec<String>,
    /// Whether to allow credentials.
    pub allow_credentials: bool,
    /// Preflight cache `max-age` in seconds.
    pub max_age_secs: Option<u64>,
}

/// The view of a list of strings: the sequence of their texts.
pub open spec fn strings_view(v: Seq<String>) -> Seq<Seq<char>> {
    v.map_values(|s: String| s@)
}

impl CorsConfig {
    /// The default CORS policy: no origins, the five standard methods, the
    /// three standard request headers, nothing exposed, no credentials and
    /// no preflight cache.
    pub open spec fn is_default(&self) -> bool {
        &&& self.allowed_origins@.len() == 0
        &&& strings_view(self.allowed_methods@) == seq!["GET"@, "POST"@, "PUT"@, "DELETE"@, "PATCH"@]
        &&& strings_view(self.allowed_headers@) == seq![
            "content-type"@,
            "authorization"@,
            "x-request-id"@,
        ]
        &&& self.expose_headers@.len() == 0
        &&& !self.allow_credentials
        &&& self.max_age_secs is None
    }

    /// Field-by-field equality of two CORS policies.
    pub open spec fn same_as(&self, other: &CorsConfig) -> bool {
        &&& strings_view(self.allowed_origins@) == strings_view(other.allowed_origins@)
        &&& strings_view(self.allowed_methods@) == strings_view(other.allowed_methods@)
        &&& strings_view(self.allowed_headers@) == strings_view(other.allowed_headers@)
        &&& strings_view(self.expose_headers@) == strings_view(other.expose_headers@)
        &&& self.allow_credentials == other.allow_credentials
        &&& self.max_age_secs == other.max_age_secs
    }

    /// Whether this policy differs from the default one.
    pub fn differs_from_default(&self) -> (r: bool)
        ensures
            r == !self.is_default(),
    {
        let d = CorsConfig::default();
        let origins = string_lists_equal(&self.allowed_origins, &d.allowed_origins);
        let methods = string_lists_equal(&self.allowed_methods, &d.allowed_methods);
        let headers = string_lists_equal(&self.allowed_headers, &d.allowed_headers);
        let exposed = string_lists_equal(&self.expose_headers, &d.expose_headers);
        proof {
            assert(strings_view(self.allowed_origins@).len() == self.allowed_origins@.len());
            assert(strings_view(self.expose_headers@).len() == self.expose_headers@.len());
            assert(strings_view(d.allowed_origins@) =~= Seq::<Seq<char>>::empty());
            assert(strings_view(d.expose_headers@) =~= Seq::<Seq<char>>::empty());
            if self.allowed_origins@.len() == 0 {
                assert(strings_view(self.allowed_origins@) =~= Seq::<Seq<char>>::empty());
            }
            if self.expose_headers@.len() == 0 {
                assert(strings_view(self.expose_headers@) =~= Seq::<Seq<char>>::empty());
            }
        }
        !(origins && methods && headers && exposed && self.allow_credentials
            == d.allow_credentials && option_u64_eq(self.max_age_secs, d.max_age_secs))
    }
}

/// Equality of optional integers.
fn option_u64_eq(a: Option<u64>, b: Option<u64>) -> (r: bool)
    ensures
        r == (a == b),
{
    match (a, b) {
        (Some(x), Some(y)) => x == y,
        (None, None) => true,
        _ => false,
    }
}

/// Element-wise equality of two lists of strings.
pub fn string_lists_equal(a: &Vec<String>, b: &Vec<String>) -> (r: bool)
    ensures
        r == (strings_view(a@) == strings_view(b@)),
{
    if a.len() != b.len() {
        proof {
            assert(strings_view(a@).len() != strings_view(b@).len());
        }
        return false;
    }
    let mut i: usize = 0;
    while i < a.len()
        invariant
            a.len() == b.len(),
            i <= a.len(),
            forall|j: int| 0 <= j < i ==> a@[j]@ == b@[j]@,
        decreases a.len() - i,
    {
        if a[i] != b[i] {
            proof {
                assert(strings_view(a@)[i as int] != strings_view(b@)[i as int]);
            }
            return false;
        }
        i = i + 1;
    }
    proof {
        assert(strings_view(a@) =~= strings_view(b@));
    }
    true
}

impl Default for CorsConfig {
    fn default() -> (r: Self)
        ensures
            r.is_default(),
    {
        let methods = vec![
            String::from_str("GET"),
            String::from_str("POST"),
            String::from_str("PUT"),
            String::from_str("DELETE"),
            String::from_str("PATCH"),
        ];
        let headers = vec![
            String::from_str("content-type"),
            String::from_str("authorization"),
            String::from_str("x-request-id"),
        ];
        let r = CorsConfig {
            allowed_origins: Vec::new(),
            allowed_methods: methods,
            allowed_headers: headers,
            expose_headers: Vec::new(),
            allow_credentials: false,
            max_age_secs: None,
        };
        proof {
            assert(strings_view(r.allowed_methods@) =~= seq!["GET"@, "POST"@, "PUT"@, "DELETE"@, "PATCH"@]);
            assert(strings_view(r.allowed_headers@) =~= seq![
                "content-type"@,
                "authorization"@,
                "x-request-id"@,
            ]);
        }
        r
    }
}

/// Default body limit: 2 MiB.
pub const DEFAULT_BODY_LIMIT_BYTES: usize = 2097152;

/// Default graceful shutdown deadline in seconds.
pub const DEFAULT_SHUTDOWN_TIMEOUT_SECS: u64 = 30;

/// Layered configuration consumed by the service builder.
#[derive(Debug, Clone)]
pub struct BootstrapConfig {
    /// Listener bind address. Default: `0.0.0.0:8080`.
    pub bind_addr: String,
    /// `tracing` env-filter directive. Default: `info`.
    pub log_level: String,
    /// Log output format. Default: `pretty`.
    pub log_format: LogFormat,
    /// Service version reported by the liveness endpoint.
    pub version: Option<String>,
    /// Health endpoint base path. Default: `/health`.
    pub health_path: String,
    /// OpenTelemetry collector endpoint.
    pub otel_endpoint: Option<String>,
    /// Postgres URL.
    pub database_url: Option<String>,
    /// Postgres pool max connections.
    pub pool_max_connections: Option<u32>,
    /// Rate-limit backend selection.
    pub rate_limit: RateLimitConfig,
    /// Maximum request body size in bytes. Default: 2 MiB.
    pub body_limit_bytes: usize,
    /// Graceful shutdown deadline in seconds. Default: 30.
    pub shutdown_timeout_secs: u64,
    /// CORS policy.
    pub cors: CorsConfig,
}

impl BootstrapConfig {
    /// The default configuration.
    pub open spec fn is_default(&self) -> bool {
        &&& self.bind_addr@ == "0.0.0.0:8080"@
        &&& self.log_level@ == "info"@
        &&& self.log_format == LogFormat::Pretty
        &&& self.version is None
        &&& self.health_path@ == "/health"@
        &&& self.otel_endpoint is None
        &&& self.database_url is None
        &&& self.pool_max_connections is None
        &&& self.rate_limit.kind == RateLimitKind::Disabled
        &&& self.body_limit_bytes == 2 * 1024 * 1024
        &&& self.shutdown_timeout_secs == 30
        &&& self.cors.is_default()
    }

    /// The configuration is invalid when it selects the in-memory limiter
    /// with a zero limit or a zero window.
    pub open spec fn rate_limit_invalid(&self) -> bool {
        match self.rate_limit.kind {
            RateLimitKind::Memory { limit, window_secs } => limit == 0 || window_secs == 0,
            RateLimitKind::Disabled => false,
        }
    }

    /// The error that validation reports for a configuration, if any: a
    /// zero limit is reported before a zero window.
    pub open spec fn validation_error(&self) -> Option<Seq<char>> {
        match self.rate_limit.kind {
            RateLimitKind::Memory { limit, window_secs } => if limit == 0 {
                Some("rate_limit.limit must be > 0"@)
            } else if window_secs == 0 {
                Some("rate_limit.window_secs must be > 0"@)
            } else {
                None
            },
            RateLimitKind::Disabled => None,
        }
    }

    /// Validate cross-field invariants. Returns the configuration back
    /// unchanged on success.
    pub fn validate(self) -> (r: core::result::Result<Self, Error>)
        ensures
            self.validation_error() is None <==> r is Ok,
            r is Ok ==> r->Ok_0 == self,
            self.validation_error() is Some ==> (r matches Err(Error::Config(m)) && m@
                == self.validation_error()->Some_0),
    {
        if let RateLimitKind::Memory { limit, window_secs } = self.rate_limit.kind {
            if limit == 0 {
                return Err(Error::Config(String::from_str("rate_limit.limit must be > 0")));
            }
            if window_secs == 0 {
                return Err(Error::Config(String::from_str("rate_limit.window_secs must be > 0")));
            }
        }
        Ok(self)
    }
}

impl Default for BootstrapConfig {
    fn default() -> (r: Self)
        ensures
            r.is_default(),
    {
        BootstrapConfig {
            bind_addr: String::from_str("0.0.0.0:8080"),
            log_level: String::from_str("info"),
            log_format: LogFormat::Pretty,
            version: None,
            health_path: String::from_str("/health"),
            otel_endpoint: None,
            database_url: None,
            pool_max_connections: None,
            rate_limit: RateLimitConfig { kind: RateLimitKind::Disabled },
            body_limit_bytes: DEFAULT_BODY_LIMIT_BYTES,
            shutdown_timeout_secs: DEFAULT_SHUTDOWN_TIMEOUT_SECS,
            cors: CorsConfig::default(),
        }
    }
}

/// The error reported when the configuration cannot be loaded: the
/// loader's message, prefixed with `config: `.
pub fn config_load_error(detail: &str) -> (r: Error)
    ensures
        r matches Error::Config(m) && m@ == "config: "@ + detail@,
{
    Error::Config(crate::text::concat2("config: ", detail))
}

/// A configuration fails validation exactly when its in-memory limiter has
/// a zero limit or a zero window.
pub proof fn lemma_validation_fails_iff_rate_limit_invalid(cfg: BootstrapConfig)
    ensures
        cfg.validation_error() is Some <==> cfg.rate_limit_invalid(),
{
}

/// The default configuration passes validation.
pub proof fn lemma_default_config_is_valid(cfg: BootstrapConfig)
    requires
        cfg.is_default(),
    ensures
        cfg.validation_error() is None,
{
}

} // verus!
