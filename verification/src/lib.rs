//! socle — the verified core of an opinionated axum service bootstrap.
//!
//! This crate holds the decision logic of the bootstrap: configuration and
//! its validation, RFC 9457 problem values, ETag conditional checks,
//! organization isolation policies, audit filtering and capture, rate-limit
//! keys and rejections, health aggregation, route labels for metrics,
//! handler response shapes, OpenAPI document post-processing and the order
//! in which a service starts, wraps its router and drains. Its functions
//! carry contracts checked by Verus, except the few trusted wrappers that
//! call outside crates (marked `#[verifier::external_body]`), whose
//! contracts are believed rather than checked.

pub mod text;
pub mod error;
pub mod config;
pub mod problem;
pub mod org;
pub mod etag;
pub mod audit;
pub mod rate_limit;
pub mod bootstrap;
pub mod health;
pub mod response;
pub mod paths;
pub mod trace;
pub mod openapi;
pub mod json;
pub mod json_view;

pub use audit::{AuditAnnotation, AuditEvent, AuditFilter, AuditSinkError};
pub use bootstrap::ServiceBootstrap;
pub use config::{BootstrapConfig, CorsConfig, LogFormat, RateLimitConfig, RateLimitKind};
pub use error::{Error, Result};
pub use etag::{check_if_match, etag_from_updated_at, ETag};
pub use problem::{ApiError, ErrorCode, HandlerError, ValidationError};
pub use rate_limit::{RateLimitBackend, RateLimitExtractor};
pub use response::{created, created_at, created_under, etagged, listed_page, ok, RfcOk};
