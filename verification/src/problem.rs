//! RFC 9457 problem values: error codes, validation errors, the API error
//! and the handler error that wraps it.

use vstd::prelude::*;

verus! {

/// Machine-readable error codes of the problem responses.
#[derive(Debug, Clone, Copy, PartialEq, Eq, Structural)]
pub enum ErrorCode {
    /// Bad Request (400).
    BadRequest,
    /// Validation Failed (400).
    ValidationFailed,
    /// Unauthorized (401).
    Unauthorized,
    /// Invalid Credentials (401).
    InvalidCredentials,
    /// Token Expired (401).
    TokenExpired,
    /// Token Invalid (401).
    TokenInvalid,
    /// Forbidden (403).
    Forbidden,
    /// Insufficient Permissions (403).
    InsufficientPermissions,
    /// Org Outside Subtree (403).
    OrgOutsideSubtree,
    /// Ancestor Required (403).
    AncestorRequired,
    /// Cross Subtree Access (403).
    CrossSubtreeAccess,
    /// Resource Not Found (404).
    ResourceNotFound,
    /// Method Not Allowed (405).
    MethodNotAllowed,
    /// Not Acceptable (406).
    NotAcceptable,
    /// Request Timeout (408).
    RequestTimeout,
    /// Conflict (409).
    Conflict,
    /// Resource Already Exists (409).
    ResourceAlreadyExists,
    /// Gone (410).
    Gone,
    /// Precondition Failed (412).
    PreconditionFailed,
    /// Payload Too Large (413).
    PayloadTooLarge,
    /// Unsupported Media Type (415).
    UnsupportedMediaType,
    /// Unprocessable Entity (422).
    UnprocessableEntity,
    /// Precondition Required (428).
    PreconditionRequired,
    /// Rate Limited (429).
    RateLimited,
    /// Request Header Fields Too Large (431).
    RequestHeaderFieldsTooLarge,
    /// Internal Server Error (500).
    InternalServerError,
    /// Not Implemented (501).
    NotImplemented,
    /// Bad Gateway (502).
    BadGateway,
    /// Service Unavailable (503).
    ServiceUnavailable,
    /// Gateway Timeout (504).
    GatewayTimeout,
}

impl ErrorCode {
    /// The HTTP status that a code maps to.
    pub open spec fn spec_status(self) -> u16 {
        match self {
            ErrorCode::BadRequest => 400,
            ErrorCode::ValidationFailed => 400,
            ErrorCode::Unauthorized => 401,
            ErrorCode::InvalidCredentials => 401,
            ErrorCode::TokenExpired => 401,
            ErrorCode::TokenInvalid => 401,
            ErrorCode::Forbidden => 403,
            ErrorCode::InsufficientPermissions => 403,
            ErrorCode::OrgOutsideSubtree => 403,
            ErrorCode::AncestorRequired => 403,
            ErrorCode::CrossSubtreeAccess => 403,
            ErrorCode::ResourceNotFound => 404,
            ErrorCode::MethodNotAllowed => 405,
            ErrorCode::NotAcceptable => 406,
            ErrorCode::RequestTimeout => 408,
            ErrorCode::Conflict => 409,
            ErrorCode::ResourceAlreadyExists => 409,
            ErrorCode::Gone => 410,
            ErrorCode::PreconditionFailed => 412,
            ErrorCode::PayloadTooLarge => 413,
            ErrorCode::UnsupportedMediaType => 415,
            ErrorCode::UnprocessableEntity => 422,
            ErrorCode::PreconditionRequired => 428,
            ErrorCode::RateLimited => 429,
            ErrorCode::RequestHeaderFieldsTooLarge => 431,
            ErrorCode::InternalServerError => 500,
            ErrorCode::NotImplemented => 501,
            ErrorCode::BadGateway => 502,
            ErrorCode::ServiceUnavailable => 503,
            ErrorCode::GatewayTimeout => 504,
        }
    }

    /// The human-readable title of a code.
    pub open spec fn spec_title(self) -> Seq<char> {
        match self {
            ErrorCode::BadRequest => "Bad Request"@,
            ErrorCode::ValidationFailed => "Validation Failed"@,
            ErrorCode::Unauthorized => "Unauthorized"@,
            ErrorCode::InvalidCredentials => "Invalid Credentials"@,
            ErrorCode::TokenExpired => "Token Expired"@,
            ErrorCode::TokenInvalid => "Token Invalid"@,
            ErrorCode::Forbidden => "Forbidden"@,
            ErrorCode::InsufficientPermissions => "Insufficient Permissions"@,
            ErrorCode::OrgOutsideSubtree => "Org Outside Subtree"@,
            ErrorCode::AncestorRequired => "Ancestor Required"@,
            ErrorCode::CrossSubtreeAccess => "Cross Subtree Access"@,
            ErrorCode::ResourceNotFound => "Resource Not Found"@,
            ErrorCode::MethodNotAllowed => "Method Not Allowed"@,
            ErrorCode::NotAcceptable => "Not Acceptable"@,
            ErrorCode::RequestTimeout => "Request Timeout"@,
            ErrorCode::Conflict => "Conflict"@,
            ErrorCode::ResourceAlreadyExists => "Resource Already Exists"@,
            ErrorCode::Gone => "Gone"@,
            ErrorCode::PreconditionFailed => "Precondition Failed"@,
            ErrorCode::PayloadTooLarge => "Payload Too Large"@,
            ErrorCode::UnsupportedMediaType => "Unsupported Media Type"@,
            ErrorCode::UnprocessableEntity => "Unprocessable Entity"@,
            ErrorCode::PreconditionRequired => "Precondition Required"@,
            ErrorCode::RateLimited => "Rate Limited"@,
            ErrorCode::RequestHeaderFieldsTooLarge => "Request Header Fields Too Large"@,
            ErrorCode::InternalServerError => "Internal Server Error"@,
            ErrorCode::NotImplemented => "Not Implemented"@,
            ErrorCode::BadGateway => "Bad Gateway"@,
            ErrorCode::ServiceUnavailable => "Service Unavailable"@,
            ErrorCode::GatewayTimeout => "Gateway Timeout"@,
        }
    }

    /// The HTTP status that this code maps to.
    pub fn status_code(&self) -> (r: u16)
        ensures
            r == self.spec_status(),
    {
        match self {
            ErrorCode::BadRequest => 400,
            ErrorCode::ValidationFailed => 400,
            ErrorCode::Unauthorized => 401,
            ErrorCode::InvalidCredentials => 401,
            ErrorCode::TokenExpired => 401,
            ErrorCode::TokenInvalid => 401,
            ErrorCode::Forbidden => 403,
            ErrorCode::InsufficientPermissions => 403,
            ErrorCode::OrgOutsideSubtree => 403,
            ErrorCode::AncestorRequired => 403,
            ErrorCode::CrossSubtreeAccess => 403,
            ErrorCode::ResourceNotFound => 404,
            ErrorCode::MethodNotAllowed => 405,
            ErrorCode::NotAcceptable => 406,
            ErrorCode::RequestTimeout => 408,
            ErrorCode::Conflict => 409,
            ErrorCode::ResourceAlreadyExists => 409,
            ErrorCode::Gone => 410,
            ErrorCode::PreconditionFailed => 412,
            ErrorCode::PayloadTooLarge => 413,
            ErrorCode::UnsupportedMediaType => 415,
            ErrorCode::UnprocessableEntity => 422,
            ErrorCode::PreconditionRequired => 428,
            ErrorCode::RateLimited => 429,
            ErrorCode::RequestHeaderFieldsTooLarge => 431,
            ErrorCode::InternalServerError => 500,
            ErrorCode::NotImplemented => 501,
            ErrorCode::BadGateway => 502,
            ErrorCode::ServiceUnavailable => 503,
            ErrorCode::GatewayTimeout => 504,
        }
    }

    /// The human-readable title of this code.
    pub fn title(&self) -> (r: String)
        ensures
            r@ == self.spec_title(),
    {
        match self {
            ErrorCode::BadRequest => String::from_str("Bad Request"),
            ErrorCode::ValidationFailed => String::from_str("Validation Failed"),
            ErrorCode::Unauthorized => String::from_str("Unauthorized"),
            ErrorCode::InvalidCredentials => String::from_str("Invalid Credentials"),
            ErrorCode::TokenExpired => String::from_str("Token Expired"),
            ErrorCode::TokenInvalid => String::from_str("Token Invalid"),
            ErrorCode::Forbidden => String::from_str("Forbidden"),
            ErrorCode::InsufficientPermissions => String::from_str("Insufficient Permissions"),
            ErrorCode::OrgOutsideSubtree => String::from_str("Org Outside Subtree"),
            ErrorCode::AncestorRequired => String::from_str("Ancestor Required"),
            ErrorCode::CrossSubtreeAccess => String::from_str("Cross Subtree Access"),
            ErrorCode::ResourceNotFound => String::from_str("Resource Not Found"),
            ErrorCode::MethodNotAllowed => String::from_str("Method Not Allowed"),
            ErrorCode::NotAcceptable => String::from_str("Not Acceptable"),
            ErrorCode::RequestTimeout => String::from_str("Request Timeout"),
            ErrorCode::Conflict => String::from_str("Conflict"),
            ErrorCode::ResourceAlreadyExists => String::from_str("Resource Already Exists"),
            ErrorCode::Gone => String::from_str("Gone"),
            ErrorCode::PreconditionFailed => String::from_str("Precondition Failed"),
            ErrorCode::PayloadTooLarge => String::from_str("Payload Too Large"),
            ErrorCode::UnsupportedMediaType => String::from_str("Unsupported Media Type"),
            ErrorCode::UnprocessableEntity => String::from_str("Unprocessable Entity"),
            ErrorCode::PreconditionRequired => String::from_str("Precondition Required"),
            ErrorCode::RateLimited => String::from_str("Rate Limited"),
            ErrorCode::RequestHeaderFieldsTooLarge => String::from_str("Request Header Fields Too Large"),
            ErrorCode::InternalServerError => String::from_str("Internal Server Error"),
            ErrorCode::NotImplemented => String::from_str("Not Implemented"),
            ErrorCode::BadGateway => String::from_str("Bad Gateway"),
            ErrorCode::ServiceUnavailable => String::from_str("Service Unavailable"),
            ErrorCode::GatewayTimeout => String::from_str("Gateway Timeout"),
        }
    }
}

/// A single field-level validation failure.
#[derive(Debug, Clone)]
pub struct ValidationError {
    /// JSON pointer of the offending field.
    pub field: String,
    /// Human-readable message.
    pub message: String,
    /// The validation rule that failed, if known.
    pub rule: Option<String>,
}

/// An RFC 9457 problem: code, title, status, detail, the request it
/// belongs to and the field errors it reports.
#[derive(Debug, Clone)]
pub struct ApiError {
    /// Machine-readable code.
    pub code: ErrorCode,
    /// Human-readable title.
    pub title: String,
    /// HTTP status.
    pub status: u16,
    /// Human-readable detail.
    pub detail: String,
    /// The request id (as a 128-bit UUID) rendered as the `instance`.
    pub request_id: Option<u128>,
    /// Field-level validation errors.
    pub errors: Vec<ValidationError>,
}

impl ApiError {
    /// The problem built from a code and a detail: title and status follow
    /// the code, there is no request id and no field error.
    pub open spec fn spec_new(self, code: ErrorCode, detail: Seq<char>) -> bool {
        &&& self.code == code
        &&& self.title@ == code.spec_title()
        &&& self.status == code.spec_status()
        &&& self.detail@ == detail
        &&& self.request_id is None
        &&& self.errors@.len() == 0
    }

    /// Build a problem from a code and a detail message.
    pub fn new(code: ErrorCode, detail: String) -> (r: Self)
        ensures
            r.spec_new(code, detail@),
    {
        ApiError {
            code,
            title: code.title(),
            status: code.status_code(),
            detail,
            request_id: None,
            errors: Vec::new(),
        }
    }

    /// A 400 Bad Request problem.
    pub fn bad_request(detail: String) -> (r: Self)
        ensures
            r.spec_new(ErrorCode::BadRequest, detail@),
    {
        Self::new(ErrorCode::BadRequest, detail)
    }

    /// A 401 Unauthorized problem.
    pub fn unauthorized(detail: String) -> (r: Self)
        ensures
            r.spec_new(ErrorCode::Unauthorized, detail@),
    {
        Self::new(ErrorCode::Unauthorized, detail)
    }

    /// A 403 Forbidden problem.
    pub fn forbidden(detail: String) -> (r: Self)
        ensures
            r.spec_new(ErrorCode::Forbidden, detail@),
    {
        Self::new(ErrorCode::Forbidden, detail)
    }

    /// A 404 Resource Not Found problem.
    pub fn not_found(detail: String) -> (r: Self)
        ensures
            r.spec_new(ErrorCode::ResourceNotFound, detail@),
    {
        Self::new(ErrorCode::ResourceNotFound, detail)
    }

    /// Attach the request id (rendered as the `instance` member).
    pub fn with_request_id(self, id: u128) -> (r: Self)
        ensures
            r == (ApiError { request_id: Some(id), ..self }),
    {
        ApiError { request_id: Some(id), ..self }
    }

    /// Replace the field-level validation errors.
    pub fn with_errors(self, errors: Vec<ValidationError>) -> (r: Self)
        ensures
            r == (ApiError { errors: errors, ..self }),
    {
        ApiError { errors, ..self }
    }

    /// The HTTP status of this problem.
    pub fn status_code(&self) -> (r: u16)
        ensures
            r == self.status,
    {
        self.status
    }
}

/// Error type for request handlers: a problem that renders as
/// `application/problem+json`.
#[derive(Debug)]
pub struct HandlerError(pub ApiError);

/// How a database operation failed, as far as the problem mapping cares.
#[derive(Debug, Clone)]
pub enum DbFailure {
    /// The query returned no row.
    RowNotFound,
    /// The database rejected the statement, with its SQLSTATE code if any.
    Database {
        /// The SQLSTATE code.
        code: Option<String>,
    },
    /// Any other failure (pool, I/O, decoding, ...).
    Other,
}

impl HandlerError {
    /// Create a handler error from a code and a detail message.
    pub fn new(code: ErrorCode, detail: String) -> (r: Self)
        ensures
            r.0.spec_new(code, detail@),
    {
        HandlerError(ApiError::new(code, detail))
    }

    /// Add a request id to the error (serialised as `instance`).
    pub fn with_request_id(self, id: u128) -> (r: Self)
        ensures
            r.0 == (ApiError { request_id: Some(id), ..self.0 }),
    {
        HandlerError(self.0.with_request_id(id))
    }

    /// Add validation errors to the error response.
    pub fn with_errors(self, errors: Vec<ValidationError>) -> (r: Self)
        ensures
            r.0 == (ApiError { errors: errors, ..self.0 }),
    {
        HandlerError(self.0.with_errors(errors))
    }

    /// Wrap an existing problem.
    pub fn from_api_error(e: ApiError) -> (r: Self)
        ensures
            r.0 == e,
    {
        HandlerError(e)
    }

    /// The problem a database failure maps to: a missing row is a 404, a
    /// unique-violation (`23505`) is a 409, anything else is a 500.
    pub open spec fn db_failure_problem(f: DbFailure) -> (ErrorCode, Seq<char>) {
        match f {
            DbFailure::RowNotFound => (ErrorCode::ResourceNotFound, "resource not found"@),
            DbFailure::Database { code } => if code is Some && code->Some_0@ == "23505"@ {
                (ErrorCode::ResourceAlreadyExists, "resource already exists"@)
            } else {
                (ErrorCode::InternalServerError, "internal server error"@)
            },
            DbFailure::Other => (ErrorCode::InternalServerError, "internal server error"@),
        }
    }

    /// Map a database failure to a handler error.
    pub fn from_db_failure(f: &DbFailure) -> (r: Self)
        ensures
            r.0.spec_new(
                Self::db_failure_problem(*f).0,
                Self::db_failure_problem(*f).1,
            ),
            f is RowNotFound ==> r.0.code == ErrorCode::ResourceNotFound && r.0.status == 404
                && r.0.detail@ == "resource not found"@,
            (f matches DbFailure::Database { code: Some(c) } && c@ == "23505"@) ==> r.0.code
                == ErrorCode::ResourceAlreadyExists && r.0.status == 409 && r.0.detail@
                == "resource already exists"@,
            !(f is RowNotFound) && !(f matches DbFailure::Database { code: Some(c) } && c@
                == "23505"@) ==> r.0.code == ErrorCode::InternalServerError && r.0.status == 500
                && r.0.detail@ == "internal server error"@,
    {
        match f {
            DbFailure::RowNotFound => Self::new(
                ErrorCode::ResourceNotFound,
                String::from_str("resource not found"),
            ),
            DbFailure::Database { code } => {
                let unique = match code {
                    Some(c) => crate::text::str_eq(c.as_str(), "23505"),
                    None => false,
                };
                if unique {
                    Self::new(
                        ErrorCode::ResourceAlreadyExists,
                        String::from_str("resource already exists"),
                    )
                } else {
                    Self::new(ErrorCode::InternalServerError, String::from_str("internal server error"))
                }
            },
            DbFailure::Other => Self::new(
                ErrorCode::InternalServerError,
                String::from_str("internal server error"),
            ),
        }
    }

    /// The error returned when a handler panics: a generic 500 that never
    /// echoes the panic payload.
    pub fn panic_error() -> (r: Self)
        ensures
            r.0.spec_new(ErrorCode::InternalServerError, "internal server error"@),
    {
        Self::new(ErrorCode::InternalServerError, String::from_str("internal server error"))
    }
}

/// How database failures are answered: a missing row is a `404`
/// `resource not found`, a unique violation (SQLSTATE `23505`) a `409`
/// `resource already exists`, and any other failure a `500`
/// `internal server error`.
pub proof fn lemma_db_failure_statuses(f: DbFailure)
    ensures
        f is RowNotFound ==> HandlerError::db_failure_problem(f) == (
            ErrorCode::ResourceNotFound,
            "resource not found"@,
        ) && HandlerError::db_failure_problem(f).0.spec_status() == 404,
        (f matches DbFailure::Database { code: Some(c) } && c@ == "23505"@)
            ==> HandlerError::db_failure_problem(f) == (
            ErrorCode::ResourceAlreadyExists,
            "resource already exists"@,
        ) && HandlerError::db_failure_problem(f).0.spec_status() == 409,
        !(f is RowNotFound) && !(f matches DbFailure::Database { code: Some(c) } && c@
            == "23505"@) ==> HandlerError::db_failure_problem(f) == (
            ErrorCode::InternalServerError,
            "internal server error"@,
        ) && HandlerError::db_failure_problem(f).0.spec_status() == 500,
{
}

/// One failed validation rule of a request body field, as the validator
/// reports it.
#[derive(Debug, Clone)]
pub struct FieldFailure {
    /// The field name.
    pub field: String,
    /// The rule's message, if it has one.
    pub message: Option<String>,
    /// The rule's code.
    pub code: String,
}

/// The field error reported for a failed rule: the field as a JSON pointer,
/// the rule's message (`invalid value` when it has none) and its code.
pub open spec fn reports_failure(e: ValidationError, f: FieldFailure) -> bool {
    &&& e.field@ == "/"@ + f.field@
    &&& e.message@ == (match f.message {
        Some(m) => m@,
        None => "invalid value"@,
    })
    &&& crate::text::opt_text(e.rule) == Some(f.code@)
}

/// The rejection of a request body that failed validation: a
/// `validation_failed` problem answered with status `422`, listing one
/// field error per failed rule, in the order given.
pub fn validation_rejection(failures: &Vec<FieldFailure>) -> (r: HandlerError)
    ensures
        r.0.code == ErrorCode::ValidationFailed,
        r.0.title@ == ErrorCode::ValidationFailed.spec_title(),
        r.0.status == 422,
        r.0.detail@ == "request validation failed"@,
        r.0.request_id is None,
        r.0.errors@.len() == failures@.len(),
        forall|i: int| 0 <= i < failures@.len() ==> reports_failure(#[trigger] r.0.errors@[i], failures@[i]),
{
    let mut errors: Vec<ValidationError> = Vec::new();
    let mut i: usize = 0;
    while i < failures.len()
        invariant
            i <= failures@.len(),
            errors@.len() == i,
            forall|j: int| 0 <= j < i ==> reports_failure(#[trigger] errors@[j], failures@[j]),
        decreases failures@.len() - i,
    {
        let f = &failures[i];
        let message = match &f.message {
            Some(m) => String::from_str(m.as_str()),
            None => String::from_str("invalid value"),
        };
        let e = ValidationError {
            field: crate::text::concat2("/", f.field.as_str()),
            message,
            rule: Some(String::from_str(f.code.as_str())),
        };
        errors.push(e);
        i = i + 1;
    }
    let mut e = HandlerError::new(
        ErrorCode::ValidationFailed,
        String::from_str("request validation failed"),
    ).with_errors(errors);
    e.0.status = 422;
    e
}

/// The rejection of a request body that is not valid JSON for the handler:
/// a `400` whose detail is the decoder's message.
pub fn json_rejection(detail: String) -> (r: HandlerError)
    ensures
        r.0.spec_new(ErrorCode::BadRequest, detail@),
{
    HandlerError::new(ErrorCode::BadRequest, detail)
}

impl From<ApiError> for HandlerError {
    fn from(e: ApiError) -> (r: Self) {
        HandlerError(e)
    }
}

impl vstd::std_specs::convert::FromSpecImpl<ApiError> for HandlerError {
    open spec fn obeys_from_spec() -> bool {
        true
    }

    open spec fn from_spec(e: ApiError) -> Self {
        HandlerError(e)
    }
}

} // verus!
