//! Error type for bootstrapping and running a service.

use vstd::prelude::*;

verus! {

/// Errors that can occur while bootstrapping or running a service.
#[derive(Debug)]
pub enum Error {
    /// A required builder method was not called or a value was invalid.
    Config(String),
    /// Telemetry initialisation failed.
    Telemetry(String),
    /// Database pool construction failed.
    Database(String),
    /// Binding the TCP listener failed.
    Bind(String),
    /// The HTTP server returned an error.
    Serve(String),
    /// Outbound HTTP client construction failed.
    HttpClient(String),
}

/// Result alias used throughout the crate.
pub type Result<T> = core::result::Result<T, Error>;

impl Error {
    /// The human-readable message of an error: a fixed prefix naming the
    /// failing stage, then the detail it carries.
    pub open spec fn spec_message(&self) -> Seq<char> {
        match self {
            Error::Config(m) => "configuration error: "@ + m@,
            Error::Telemetry(m) => "telemetry init failed: "@ + m@,
            Error::Database(m) => "database init failed: "@ + m@,
            Error::Bind(m) => "bind failed: "@ + m@,
            Error::Serve(m) => "serve failed: "@ + m@,
            Error::HttpClient(m) => "http client build failed: "@ + m@,
        }
    }

    /// The detail string carried by the error.
    pub open spec fn spec_detail(&self) -> Seq<char> {
        match self {
            Error::Config(m) => m@,
            Error::Telemetry(m) => m@,
            Error::Database(m) => m@,
            Error::Bind(m) => m@,
            Error::Serve(m) => m@,
            Error::HttpClient(m) => m@,
        }
    }

    /// Render the error as text (the `Display` form of the error).
    pub fn message(&self) -> (r: String)
        ensures
            r@ == self.spec_message(),
    {
        match self {
            Error::Config(m) => String::from_str("configuration error: ").concat(m.as_str()),
            Error::Telemetry(m) => String::from_str("telemetry init failed: ").concat(m.as_str()),
            Error::Database(m) => String::from_str("database init failed: ").concat(m.as_str()),
            Error::Bind(m) => String::from_str("bind failed: ").concat(m.as_str()),
            Error::Serve(m) => String::from_str("serve failed: ").concat(m.as_str()),
            Error::HttpClient(m) => String::from_str("http client build failed: ").concat(
                m.as_str(),
            ),
        }
    }
}

/// The message of an error ends with the detail it carries, so the detail
/// is always recoverable from the rendered text.
pub proof fn lemma_message_ends_with_detail(e: Error)
    ensures
        e.spec_message().len() >= e.spec_detail().len(),
        e.spec_message().subrange(
            e.spec_message().len() - e.spec_detail().len(),
            e.spec_message().len() as int,
        ) =~= e.spec_detail(),
{
}

} // verus!
