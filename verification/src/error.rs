//! The bridge's error kinds and the mapping of node (gRPC) failures onto HTTP replies.

use vstd::prelude::*;

use crate::text::{chars_of, contains_text, text_contains, to_lowercase, lower_case};

verus! {

/// A gRPC status code, as reported by an Xray node.
#[derive(Clone, Copy, Debug, PartialEq, Eq, Structural)]
pub enum GrpcCode {
    /// The call succeeded (gRPC `OK`).
    Success,
    Cancelled,
    Unknown,
    InvalidArgument,
    DeadlineExceeded,
    NotFound,
    AlreadyExists,
    PermissionDenied,
    ResourceExhausted,
    FailedPrecondition,
    Aborted,
    OutOfRange,
    Unimplemented,
    Internal,
    Unavailable,
    DataLoss,
    Unauthenticated,
}

pub const HTTP_OK: u16 = 200;
pub const HTTP_CREATED: u16 = 201;
pub const HTTP_BAD_REQUEST: u16 = 400;
pub const HTTP_UNAUTHORIZED: u16 = 401;
pub const HTTP_NOT_FOUND: u16 = 404;
pub const HTTP_CONFLICT: u16 = 409;
pub const HTTP_UNPROCESSABLE_ENTITY: u16 = 422;
pub const HTTP_INTERNAL_SERVER_ERROR: u16 = 500;
pub const HTTP_NOT_IMPLEMENTED: u16 = 501;
pub const HTTP_BAD_GATEWAY: u16 = 502;

/// Errors the bridge answers a request with.
#[derive(Debug)]
pub enum AppError {
    /// gRPC transport or RPC error from an Xray node.
    Grpc { code: GrpcCode, details: String },
    /// Missing or invalid `Authorization` header (401).
    Unauthenticated(String),
    /// Missing `X-Node-Domain` / `X-Node-Token` header (400).
    InvalidArgument(String),
    /// Request body validation failure (422).
    UnprocessableEntity(String),
    /// Unexpected internal error (500).
    Internal(String),
}

/// The (already lowercased) details of an `Unknown` status say that something was not found.
pub open spec fn says_not_found(lowered: Seq<char>) -> bool {
    contains_text(lowered, "not found"@)
}

/// The (already lowercased) details of an `Unknown` status say that something already exists.
pub open spec fn says_already_exists(lowered: Seq<char>) -> bool {
    contains_text(lowered, "already exists"@)
}

/// The HTTP status for a gRPC code whose details, lowercased, are `lowered`.
pub open spec fn status_for_code(code: GrpcCode, lowered: Seq<char>) -> u16 {
    match code {
        GrpcCode::NotFound => 404,
        GrpcCode::AlreadyExists => 409,
        GrpcCode::Unimplemented => 501,
        GrpcCode::Unavailable => 502,
        GrpcCode::Unknown => if says_not_found(lowered) {
            404
        } else if says_already_exists(lowered) {
            409
        } else {
            502
        },
        _ => 500,
    }
}

/// A node's answer means "the thing does not exist" (`lowered` is the lowercased details).
pub open spec fn means_not_found(code: GrpcCode, lowered: Seq<char>) -> bool {
    code == GrpcCode::NotFound || (code == GrpcCode::Unknown && says_not_found(lowered))
}

/// The HTTP status for a gRPC code, given its details already lowercased.
pub fn status_for_lowered(code: GrpcCode, lowered: &str) -> (r: u16)
    ensures
        r == status_for_code(code, lowered@),
{
    match code {
        GrpcCode::NotFound => HTTP_NOT_FOUND,
        GrpcCode::AlreadyExists => HTTP_CONFLICT,
        GrpcCode::Unimplemented => HTTP_NOT_IMPLEMENTED,
        GrpcCode::Unavailable => HTTP_BAD_GATEWAY,
        GrpcCode::Unknown => {
            let hay = chars_of(lowered);
            if text_contains(&hay, &chars_of("not found")) {
                HTTP_NOT_FOUND
            } else if text_contains(&hay, &chars_of("already exists")) {
                HTTP_CONFLICT
            } else {
                HTTP_BAD_GATEWAY
            }
        },
        _ => HTTP_INTERNAL_SERVER_ERROR,
    }
}

/// Converts a gRPC status code and its details to an HTTP status code.
/// `Unknown` is resolved by looking, case-insensitively, for "not found" and then
/// "already exists" in the details.
pub fn grpc_code_to_http(code: GrpcCode, details: &str) -> (r: u16)
    ensures
        r == status_for_code(code, lower_case(details@)),
{
    if code == GrpcCode::Unknown {
        let lowered = to_lowercase(details);
        status_for_lowered(code, lowered.as_str())
    } else {
        status_for_lowered(code, "")
    }
}

/// Given its details already lowercased, whether a node's status means "not found".
pub fn is_not_found_lowered(code: GrpcCode, lowered: &str) -> (r: bool)
    ensures
        r == means_not_found(code, lowered@),
{
    match code {
        GrpcCode::NotFound => true,
        GrpcCode::Unknown => text_contains(&chars_of(lowered), &chars_of("not found")),
        _ => false,
    }
}

/// Whether a node's status means "not found": `NotFound`, or `Unknown` with details
/// containing "not found" in any letter case.
pub fn is_not_found(code: GrpcCode, details: &str) -> (r: bool)
    ensures
        r == means_not_found(code, lower_case(details@)),
{
    if code == GrpcCode::Unknown {
        let lowered = to_lowercase(details);
        is_not_found_lowered(code, lowered.as_str())
    } else {
        is_not_found_lowered(code, "")
    }
}

/// The SCREAMING_SNAKE_CASE name of a gRPC code.
pub open spec fn code_name_spec(code: GrpcCode) -> Seq<char> {
    match code {
        GrpcCode::Success => "OK"@,
        GrpcCode::Cancelled => "CANCELLED"@,
        GrpcCode::Unknown => "UNKNOWN"@,
        GrpcCode::InvalidArgument => "INVALID_ARGUMENT"@,
        GrpcCode::DeadlineExceeded => "DEADLINE_EXCEEDED"@,
        GrpcCode::NotFound => "NOT_FOUND"@,
        GrpcCode::AlreadyExists => "ALREADY_EXISTS"@,
        GrpcCode::PermissionDenied => "PERMISSION_DENIED"@,
        GrpcCode::ResourceExhausted => "RESOURCE_EXHAUSTED"@,
        GrpcCode::FailedPrecondition => "FAILED_PRECONDITION"@,
        GrpcCode::Aborted => "ABORTED"@,
        GrpcCode::OutOfRange => "OUT_OF_RANGE"@,
        GrpcCode::Unimplemented => "UNIMPLEMENTED"@,
        GrpcCode::Internal => "INTERNAL"@,
        GrpcCode::Unavailable => "UNAVAILABLE"@,
        GrpcCode::DataLoss => "DATA_LOSS"@,
        GrpcCode::Unauthenticated => "UNAUTHENTICATED"@,
    }
}

/// The SCREAMING_SNAKE_CASE name of a gRPC code.
pub fn code_name(code: GrpcCode) -> (r: &'static str)
    ensures
        r@ == code_name_spec(code),
{
    match code {
        GrpcCode::Success => "OK",
        GrpcCode::Cancelled => "CANCELLED",
        GrpcCode::Unknown => "UNKNOWN",
        GrpcCode::InvalidArgument => "INVALID_ARGUMENT",
        GrpcCode::DeadlineExceeded => "DEADLINE_EXCEEDED",
        GrpcCode::NotFound => "NOT_FOUND",
        GrpcCode::AlreadyExists => "ALREADY_EXISTS",
        GrpcCode::PermissionDenied => "PERMISSION_DENIED",
        GrpcCode::ResourceExhausted => "RESOURCE_EXHAUSTED",
        GrpcCode::FailedPrecondition => "FAILED_PRECONDITION",
        GrpcCode::Aborted => "ABORTED",
        GrpcCode::OutOfRange => "OUT_OF_RANGE",
        GrpcCode::Unimplemented => "UNIMPLEMENTED",
        GrpcCode::Internal => "INTERNAL",
        GrpcCode::Unavailable => "UNAVAILABLE",
        GrpcCode::DataLoss => "DATA_LOSS",
        GrpcCode::Unauthenticated => "UNAUTHENTICATED",
    }
}

impl AppError {
    /// The HTTP status this error is answered with.
    pub open spec fn status_spec(self) -> u16 {
        match self {
            AppError::Grpc { code, details } => status_for_code(code, lower_case(details@)),
            AppError::Unauthenticated(_) => 401,
            AppError::InvalidArgument(_) => 400,
            AppError::UnprocessableEntity(_) => 422,
            AppError::Internal(_) => 500,
        }
    }

    /// The `code` field of the JSON error body.
    pub open spec fn code_label_spec(self) -> Seq<char> {
        match self {
            AppError::Grpc { code, details: _ } => code_name_spec(code),
            AppError::Unauthenticated(_) => "UNAUTHENTICATED"@,
            AppError::InvalidArgument(_) => "INVALID_ARGUMENT"@,
            AppError::UnprocessableEntity(_) => "INVALID_ARGUMENT"@,
            AppError::Internal(_) => "INTERNAL_ERROR"@,
        }
    }

    /// The `error` field of the JSON error body.
    pub open spec fn message_spec(self) -> Seq<char> {
        match self {
            AppError::Grpc { code: _, details } => details@,
            AppError::Unauthenticated(m) => m@,
            AppError::InvalidArgument(m) => m@,
            AppError::UnprocessableEntity(m) => m@,
            AppError::Internal(m) => m@,
        }
    }

    /// The HTTP status this error is answered with.
    pub fn http_status(&self) -> (r: u16)
        ensures
            r == self.status_spec(),
    {
        match self {
            AppError::Grpc { code, details } => grpc_code_to_http(*code, details.as_str()),
            AppError::Unauthenticated(_) => HTTP_UNAUTHORIZED,
            AppError::InvalidArgument(_) => HTTP_BAD_REQUEST,
            AppError::UnprocessableEntity(_) => HTTP_UNPROCESSABLE_ENTITY,
            AppError::Internal(_) => HTTP_INTERNAL_SERVER_ERROR,
        }
    }

    /// The `code` field of the JSON error body.
    pub fn code_label(&self) -> (r: &'static str)
        ensures
            r@ == self.code_label_spec(),
    {
        match self {
            AppError::Grpc { code, details: _ } => code_name(*code),
            AppError::Unauthenticated(_) => "UNAUTHENTICATED",
            AppError::InvalidArgument(_) => "INVALID_ARGUMENT",
            AppError::UnprocessableEntity(_) => "INVALID_ARGUMENT",
            AppError::Internal(_) => "INTERNAL_ERROR",
        }
    }

    /// The `error` field of the JSON error body.
    pub fn message(&self) -> (r: &str)
        ensures
            r@ == self.message_spec(),
    {
        match self {
            AppError::Grpc { code: _, details } => details.as_str(),
            AppError::Unauthenticated(m) => m.as_str(),
            AppError::InvalidArgument(m) => m.as_str(),
            AppError::UnprocessableEntity(m) => m.as_str(),
            AppError::Internal(m) => m.as_str(),
        }
    }
}

/// The statuses a node failure can be answered with.
pub open spec fn is_node_failure_status(s: u16) -> bool {
    s == 404 || s == 409 || s == 500 || s == 501 || s == 502
}

/// How each kind of error is answered: a bad or missing `Authorization` header with 401
/// `UNAUTHENTICATED`, missing node headers with 400 `INVALID_ARGUMENT`, a body that fails
/// validation with 422 `INVALID_ARGUMENT`, an internal failure with 500 `INTERNAL_ERROR`;
/// node failures by their gRPC code (404, 409, 501, 502, else 500) under the code's name.
/// The error body always carries the error's message.
pub proof fn error_reference_table(m: String, code: GrpcCode, details: String)
    ensures
        AppError::Unauthenticated(m).status_spec() == 401,
        AppError::Unauthenticated(m).code_label_spec() == "UNAUTHENTICATED"@,
        AppError::InvalidArgument(m).status_spec() == 400,
        AppError::InvalidArgument(m).code_label_spec() == "INVALID_ARGUMENT"@,
        AppError::UnprocessableEntity(m).status_spec() == 422,
        AppError::UnprocessableEntity(m).code_label_spec() == "INVALID_ARGUMENT"@,
        AppError::Internal(m).status_spec() == 500,
        AppError::Internal(m).code_label_spec() == "INTERNAL_ERROR"@,
        (AppError::Grpc { code, details }).code_label_spec() == code_name_spec(code),
        is_node_failure_status((AppError::Grpc { code, details }).status_spec()),
        AppError::Unauthenticated(m).message_spec() == m@,
        (AppError::Grpc { code, details }).message_spec() == details@,
{
}

/// A node's status means "not found" exactly when it is answered with 404.
pub proof fn not_found_iff_404(code: GrpcCode, lowered: Seq<char>)
    ensures
        means_not_found(code, lowered) <==> status_for_code(code, lowered) == 404,
{
}

} // verus!
