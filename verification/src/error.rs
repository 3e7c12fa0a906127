//! Structured errors and the HTTP status classifier.
//!
//! Every failure the client can observe is one variant of [`AnthropicError`].
//! Text carried inside an error (messages, request ids) is kept as UTF-8
//! bytes; durations are milliseconds.

use vstd::prelude::*;

verus! {

/// The error type for the client.
///
/// Variants that correspond to an HTTP status carry the server's message and
/// the optional `request-id` header value.  `RateLimited` additionally carries
/// the server's retry hint in milliseconds, when one was sent.
#[derive(Debug, Clone, PartialEq, Eq)]
pub enum AnthropicError {
    /// Bad request (HTTP 400).
    BadRequest { message: Vec<u8>, request_id: Option<Vec<u8>> },
    /// Authentication failed (HTTP 401).
    Authentication { message: Vec<u8>, request_id: Option<Vec<u8>> },
    /// Permission denied (HTTP 403).
    PermissionDenied { message: Vec<u8>, request_id: Option<Vec<u8>> },
    /// Resource not found (HTTP 404).
    NotFound { message: Vec<u8>, request_id: Option<Vec<u8>> },
    /// Conflict (HTTP 409).
    Conflict { message: Vec<u8>, request_id: Option<Vec<u8>> },
    /// Unprocessable entity (HTTP 422).
    UnprocessableEntity { message: Vec<u8>, request_id: Option<Vec<u8>> },
    /// Rate limited (HTTP 429); carries the retry hint in milliseconds.
    RateLimited { message: Vec<u8>, request_id: Option<Vec<u8>>, retry_after_ms: Option<u64> },
    /// Internal server error (any other HTTP 5xx); carries the literal status.
    InternalServer { message: Vec<u8>, status: u16, request_id: Option<Vec<u8>> },
    /// Server overloaded (HTTP 529).
    Overloaded { message: Vec<u8>, request_id: Option<Vec<u8>> },
    /// Request too large (HTTP 413).
    RequestTooLarge { message: Vec<u8>, request_id: Option<Vec<u8>> },
    /// Transport-level connection failure.
    Connection { message: Vec<u8> },
    /// The request timed out.
    Timeout,
    /// The server answered with something that is not a valid API response;
    /// carries the raw status (0 when no HTTP status applies) and body.
    InvalidResponse { status: u16, message: Vec<u8> },
    /// A JSON payload could not be decoded.
    Json { message: Vec<u8> },
    /// Client configuration error.
    Config { message: Vec<u8> },
    /// No API key or auth token was provided.
    MissingApiKey,
    /// An error inside an active event stream.
    Stream { message: Vec<u8> },
}

/// The classifier, as a mathematical function: which error a given HTTP
/// status, message, request id and retry hint map to.
pub open spec fn error_for_status(
    status: u16,
    message: Seq<u8>,
    request_id: Option<Seq<u8>>,
    retry_after_ms: Option<u64>,
) -> AnthropicErrorModel {
    if status == 400 {
        AnthropicErrorModel::BadRequest { message, request_id }
    } else if status == 401 {
        AnthropicErrorModel::Authentication { message, request_id }
    } else if status == 403 {
        AnthropicErrorModel::PermissionDenied { message, request_id }
    } else if status == 404 {
        AnthropicErrorModel::NotFound { message, request_id }
    } else if status == 409 {
        AnthropicErrorModel::Conflict { message, request_id }
    } else if status == 413 {
        AnthropicErrorModel::RequestTooLarge { message, request_id }
    } else if status == 422 {
        AnthropicErrorModel::UnprocessableEntity { message, request_id }
    } else if status == 429 {
        AnthropicErrorModel::RateLimited { message, request_id, retry_after_ms }
    } else if status == 529 {
        AnthropicErrorModel::Overloaded { message, request_id }
    } else if 500 <= status <= 599 {
        AnthropicErrorModel::InternalServer { message, status, request_id }
    } else {
        AnthropicErrorModel::InvalidResponse { status, message }
    }
}

/// Mathematical image of an [`AnthropicError`]: the same variants over
/// sequences instead of vectors.
pub ghost enum AnthropicErrorModel {
    BadRequest { message: Seq<u8>, request_id: Option<Seq<u8>> },
    Authentication { message: Seq<u8>, request_id: Option<Seq<u8>> },
    PermissionDenied { message: Seq<u8>, request_id: Option<Seq<u8>> },
    NotFound { message: Seq<u8>, request_id: Option<Seq<u8>> },
    Conflict { message: Seq<u8>, request_id: Option<Seq<u8>> },
    UnprocessableEntity { message: Seq<u8>, request_id: Option<Seq<u8>> },
    RateLimited { message: Seq<u8>, request_id: Option<Seq<u8>>, retry_after_ms: Option<u64> },
    InternalServer { message: Seq<u8>, status: u16, request_id: Option<Seq<u8>> },
    Overloaded { message: Seq<u8>, request_id: Option<Seq<u8>> },
    RequestTooLarge { message: Seq<u8>, request_id: Option<Seq<u8>> },
    InvalidResponse { status: u16, message: Seq<u8> },
    Connection { message: Seq<u8> },
    Timeout,
    Json { message: Seq<u8> },
    Config { message: Seq<u8> },
    MissingApiKey,
    Stream { message: Seq<u8> },
}

/// The API's error envelope: `{type, error: {type, message}}`.
#[derive(Debug, Clone, PartialEq, Eq)]
pub struct ErrorResponse {
    /// The envelope's type tag.
    pub error_type: Vec<u8>,
    /// The error object.
    pub error: ErrorObject,
}

/// The error object inside the envelope.
#[derive(Debug, Clone, PartialEq, Eq)]
pub struct ErrorObject {
    /// The error's type tag.
    pub error_type: Vec<u8>,
    /// The error message.
    pub message: Vec<u8>,
}

/// The view of an option of bytes.
pub open spec fn opt_view(o: Option<Vec<u8>>) -> Option<Seq<u8>> {
    match o {
        Option::Some(v) => Option::Some(v@),
        Option::None => Option::None,
    }
}

impl AnthropicError {
    /// Classify an HTTP status code and response body into an error.
    ///
    /// The mapping follows `error_for_status`; a status outside the known
    /// taxonomy yields `InvalidResponse`, carrying the raw status and body.
    pub fn from_status(
        status: u16,
        message: Vec<u8>,
        request_id: Option<Vec<u8>>,
        retry_after_ms: Option<u64>,
    ) -> (r: Self)
        ensures
            r.model() == error_for_status(status, message@, opt_view(request_id), retry_after_ms),
    {
        match status {
            400u16 => AnthropicError::BadRequest { message, request_id },
            401u16 => AnthropicError::Authentication { message, request_id },
            403u16 => AnthropicError::PermissionDenied { message, request_id },
            404u16 => AnthropicError::NotFound { message, request_id },
            409u16 => AnthropicError::Conflict { message, request_id },
            413u16 => AnthropicError::RequestTooLarge { message, request_id },
            422u16 => AnthropicError::UnprocessableEntity { message, request_id },
            429u16 => AnthropicError::RateLimited { message, request_id, retry_after_ms },
            529u16 => AnthropicError::Overloaded { message, request_id },
            s => {
                if 500 <= s && s <= 599 {
                    AnthropicError::InternalServer { message, status, request_id }
                } else {
                    AnthropicError::InvalidResponse { status, message }
                }
            },
        }
    }

    /// The mathematical image of this error, for contracts.
    pub open spec fn model(self) -> AnthropicErrorModel {
        match self {
            AnthropicError::BadRequest { message, request_id } => AnthropicErrorModel::BadRequest {
                message: message@,
                request_id: opt_view(request_id),
            },
            AnthropicError::Authentication { message, request_id } => AnthropicErrorModel::Authentication {
                message: message@,
                request_id: opt_view(request_id),
            },
            AnthropicError::PermissionDenied { message, request_id } => AnthropicErrorModel::PermissionDenied {
                message: message@,
                request_id: opt_view(request_id),
            },
            AnthropicError::NotFound { message, request_id } => AnthropicErrorModel::NotFound {
                message: message@,
                request_id: opt_view(request_id),
            },
            AnthropicError::Conflict { message, request_id } => AnthropicErrorModel::Conflict {
                message: message@,
                request_id: opt_view(request_id),
            },
            AnthropicError::UnprocessableEntity { message, request_id } => AnthropicErrorModel::UnprocessableEntity {
                message: message@,
                request_id: opt_view(request_id),
            },
            AnthropicError::RateLimited { message, request_id, retry_after_ms } => AnthropicErrorModel::RateLimited {
                message: message@,
                request_id: opt_view(request_id),
                retry_after_ms,
            },
            AnthropicError::InternalServer { message, status, request_id } => AnthropicErrorModel::InternalServer {
                message: message@,
                status,
                request_id: opt_view(request_id),
            },
            AnthropicError::Overloaded { message, request_id } => AnthropicErrorModel::Overloaded {
                message: message@,
                request_id: opt_view(request_id),
            },
            AnthropicError::RequestTooLarge { message, request_id } => AnthropicErrorModel::RequestTooLarge {
                message: message@,
                request_id: opt_view(request_id),
            },
            AnthropicError::InvalidResponse { status, message } => AnthropicErrorModel::InvalidResponse {
                status,
                message: message@,
            },
            AnthropicError::Connection { message } => AnthropicErrorModel::Connection {
                message: message@,
            },
            AnthropicError::Timeout => AnthropicErrorModel::Timeout,
            AnthropicError::Json { message } => AnthropicErrorModel::Json { message: message@ },
            AnthropicError::Config { message } => AnthropicErrorModel::Config {
                message: message@,
            },
            AnthropicError::MissingApiKey => AnthropicErrorModel::MissingApiKey,
            AnthropicError::Stream { message } => AnthropicErrorModel::Stream {
                message: message@,
            },
        }
    }

    /// The request id carried by this error, where the taxonomy has one.
    pub fn request_id(&self) -> (r: Option<&Vec<u8>>)
        ensures
            r == self.spec_request_id(),
    {
        match self {
            AnthropicError::BadRequest { request_id, .. }
            | AnthropicError::Authentication { request_id, .. }
            | AnthropicError::PermissionDenied { request_id, .. }
            | AnthropicError::NotFound { request_id, .. }
            | AnthropicError::Conflict { request_id, .. }
            | AnthropicError::UnprocessableEntity { request_id, .. }
            | AnthropicError::RateLimited { request_id, .. }
            | AnthropicError::InternalServer { request_id, .. }
            | AnthropicError::Overloaded { request_id, .. }
            | AnthropicError::RequestTooLarge { request_id, .. } => request_id.as_ref(),
            _ => None,
        }
    }

    /// Which request id `request_id` returns.
    pub open spec fn spec_request_id(&self) -> Option<&Vec<u8>> {
        match self {
            AnthropicError::BadRequest { request_id, .. }
            | AnthropicError::Authentication { request_id, .. }
            | AnthropicError::PermissionDenied { request_id, .. }
            | AnthropicError::NotFound { request_id, .. }
            | AnthropicError::Conflict { request_id, .. }
            | AnthropicError::UnprocessableEntity { request_id, .. }
            | AnthropicError::RateLimited { request_id, .. }
            | AnthropicError::InternalServer { request_id, .. }
            | AnthropicError::Overloaded { request_id, .. }
            | AnthropicError::RequestTooLarge { request_id, .. } => match request_id {
                Option::Some(id) => Option::Some(id),
                Option::None => Option::None,
            },
            _ => Option::None,
        }
    }

    /// Whether surfacing this error means the request may be retried.
    pub fn is_retryable(&self) -> (r: bool)
        ensures
            r == self.spec_is_retryable(),
    {
        match self {
            AnthropicError::RateLimited { .. }
            | AnthropicError::InternalServer { .. }
            | AnthropicError::Overloaded { .. }
            | AnthropicError::Timeout
            | AnthropicError::Connection { .. } => true,
            _ => false,
        }
    }

    /// Which errors count as retryable.
    pub open spec fn spec_is_retryable(&self) -> bool {
        self is RateLimited || self is InternalServer || self is Overloaded || self is Timeout
            || self is Connection
    }

    /// The retry hint in milliseconds, carried only by `RateLimited`.
    pub fn retry_after_ms(&self) -> (r: Option<u64>)
        ensures
            r == self.spec_retry_after_ms(),
    {
        match self {
            AnthropicError::RateLimited { retry_after_ms, .. } => *retry_after_ms,
            _ => None,
        }
    }

    /// Which hint `retry_after_ms` returns.
    pub open spec fn spec_retry_after_ms(&self) -> Option<u64> {
        match self {
            AnthropicError::RateLimited { retry_after_ms, .. } => *retry_after_ms,
            _ => Option::None,
        }
    }
}

} // verus!
