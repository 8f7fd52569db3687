//! Runtime and `/v1` API error shapes, and the mapping between them.
use vstd::prelude::*;

verus! {

/// HTTP status codes used by the API error envelope.
pub const BAD_REQUEST: u16 = 400;
pub const UNAUTHORIZED: u16 = 401;
pub const NOT_FOUND: u16 = 404;
pub const CONFLICT: u16 = 409;
pub const INTERNAL_SERVER_ERROR: u16 = 500;
pub const BAD_GATEWAY: u16 = 502;
pub const SERVICE_UNAVAILABLE: u16 = 503;

/// Machine-readable runtime error code.
#[derive(Clone, Copy, Debug, PartialEq, Eq, Structural)]
pub enum RuntimeErrorCode {
    RuntimeNotReady,
    InvalidDescriptor,
    InvalidMutation,
    InvalidSecret,
    InvalidAccount,
    AccountBaseUrlRequired,
    AccountSecretRequired,
    AccountUsernameRequired,
    AccountSenderRequired,
    Unauthorized,
    NotFound,
    ProviderUnavailable,
    Conflict,
    NetworkError,
    StateMismatch,
    GatewayRejected,
    SecretUnavailable,
    SecretUnsupported,
    ConfigValidation,
    ConfigParse,
    CannotCalculateChanges,
    StorageFailure,
    ConfigIo,
    TransportDisconnected,
    Internal,
}

/// Whether a failure is a verdict (`Permanent`) or may clear on retry.
#[derive(Clone, Copy, Debug, PartialEq, Eq, Structural)]
pub enum Terminality {
    Permanent,
    Transient,
}

impl Terminality {
    pub fn is_transient(&self) -> (r: bool)
        ensures
            r == (*self == Terminality::Transient),
    {
        match self {
            Terminality::Transient => true,
            Terminality::Permanent => false,
        }
    }
}

/// The wire envelope of a runtime error. `details` holds the JSON text of the
/// structured context (`{}` when there is none).
#[derive(Debug)]
pub struct RuntimeAdapterError {
    pub code: RuntimeErrorCode,
    pub message: String,
    pub terminality: Terminality,
    pub details: String,
}

impl RuntimeAdapterError {
    /// A field-for-field copy.
    pub fn duplicate(&self) -> (r: Self)
        ensures
            r == *self,
    {
        RuntimeAdapterError {
            code: self.code,
            message: self.message.clone(),
            terminality: self.terminality,
            details: self.details.clone(),
        }
    }
}

/// A runtime-contract error: a wrapper around its envelope.
#[derive(Debug)]
pub struct RuntimeError(pub RuntimeAdapterError);

/// The string `s`, owned.
pub fn owned(s: &str) -> (r: String)
    ensures
        r@ == s@,
{
    s.to_owned()
}

impl RuntimeError {
    /// A permanent error with no details.
    pub fn new(code: RuntimeErrorCode, message: String) -> (r: Self)
        ensures
            r.0.code == code,
            r.0.message == message,
            r.0.terminality == Terminality::Permanent,
            r.0.details@ == "{}"@,
    {
        RuntimeError(
            RuntimeAdapterError {
                code,
                message,
                terminality: Terminality::Permanent,
                details: owned("{}"),
            },
        )
    }

    /// A transient (retryable) error with no details.
    pub fn retryable(code: RuntimeErrorCode, message: String) -> (r: Self)
        ensures
            r.0.code == code,
            r.0.message == message,
            r.0.terminality == Terminality::Transient,
            r.0.details@ == "{}"@,
    {
        RuntimeError(
            RuntimeAdapterError {
                code,
                message,
                terminality: Terminality::Transient,
                details: owned("{}"),
            },
        )
    }

    pub fn envelope(&self) -> (r: &RuntimeAdapterError)
        ensures
            *r == self.0,
    {
        &self.0
    }
}

/// Stable machine-readable `/v1` API error code.
#[derive(Clone, Copy, Debug, PartialEq, Eq, Structural)]
pub enum ApiErrorCode {
    InvalidQuery,
    InvalidCursor,
    InvalidLimit,
    InvalidMailbox,
    InvalidCompose,
    InvalidSecret,
    InvalidProvider,
    InvalidAccount,
    InvalidAccountLogo,
    InvalidOauthRequest,
    InvalidOauthCallback,
    OauthDenied,
    InvalidGrant,
    AccountBaseUrlRequired,
    AccountSecretRequired,
    AccountUsernameRequired,
    AccountSenderRequired,
    NotFound,
    Conflict,
    InternalError,
    Unauthorized,
    Forbidden,
    GatewayUnavailable,
    AuthError,
    NetworkError,
    StateMismatch,
    CannotCalculateChanges,
    GatewayRejected,
    SecretUnavailable,
    SecretUnsupported,
    StorageFailure,
    ConfigValidation,
    ConfigIo,
    ConfigParse,
}

/// Domain service error kinds.
#[derive(Clone, Copy, Debug, PartialEq, Eq, Structural)]
pub enum ServiceErrorKind {
    GatewayUnavailable,
    AuthError,
    NetworkError,
    StateMismatch,
    CannotCalculateChanges,
    GatewayRejected,
    SecretUnavailable,
    SecretUnsupported,
    NotFound,
    Conflict,
    StorageFailure,
    ConfigValidation,
    ConfigIo,
    ConfigParse,
}

/// A domain service error: its kind and its rendered message.
#[derive(Debug)]
pub struct ServiceError {
    pub kind: ServiceErrorKind,
    pub message: String,
}

/// The API code a service error kind maps to (same-named variant).
pub open spec fn spec_api_code_of_kind(kind: ServiceErrorKind) -> ApiErrorCode {
    match kind {
        ServiceErrorKind::GatewayUnavailable => ApiErrorCode::GatewayUnavailable,
        ServiceErrorKind::AuthError => ApiErrorCode::AuthError,
        ServiceErrorKind::NetworkError => ApiErrorCode::NetworkError,
        ServiceErrorKind::StateMismatch => ApiErrorCode::StateMismatch,
        ServiceErrorKind::CannotCalculateChanges => ApiErrorCode::CannotCalculateChanges,
        ServiceErrorKind::GatewayRejected => ApiErrorCode::GatewayRejected,
        ServiceErrorKind::SecretUnavailable => ApiErrorCode::SecretUnavailable,
        ServiceErrorKind::SecretUnsupported => ApiErrorCode::SecretUnsupported,
        ServiceErrorKind::NotFound => ApiErrorCode::NotFound,
        ServiceErrorKind::Conflict => ApiErrorCode::Conflict,
        ServiceErrorKind::StorageFailure => ApiErrorCode::StorageFailure,
        ServiceErrorKind::ConfigValidation => ApiErrorCode::ConfigValidation,
        ServiceErrorKind::ConfigIo => ApiErrorCode::ConfigIo,
        ServiceErrorKind::ConfigParse => ApiErrorCode::ConfigParse,
    }
}

impl ApiErrorCode {
    /// `From<ServiceErrorKind>`: each domain kind maps to its same-named code.
    pub fn from_kind(kind: ServiceErrorKind) -> (r: ApiErrorCode)
        ensures
            r == spec_api_code_of_kind(kind),
    {
        match kind {
            ServiceErrorKind::GatewayUnavailable => ApiErrorCode::GatewayUnavailable,
            ServiceErrorKind::AuthError => ApiErrorCode::AuthError,
            ServiceErrorKind::NetworkError => ApiErrorCode::NetworkError,
            ServiceErrorKind::StateMismatch => ApiErrorCode::StateMismatch,
            ServiceErrorKind::CannotCalculateChanges => ApiErrorCode::CannotCalculateChanges,
            ServiceErrorKind::GatewayRejected => ApiErrorCode::GatewayRejected,
            ServiceErrorKind::SecretUnavailable => ApiErrorCode::SecretUnavailable,
            ServiceErrorKind::SecretUnsupported => ApiErrorCode::SecretUnsupported,
            ServiceErrorKind::NotFound => ApiErrorCode::NotFound,
            ServiceErrorKind::Conflict => ApiErrorCode::Conflict,
            ServiceErrorKind::StorageFailure => ApiErrorCode::StorageFailure,
            ServiceErrorKind::ConfigValidation => ApiErrorCode::ConfigValidation,
            ServiceErrorKind::ConfigIo => ApiErrorCode::ConfigIo,
            ServiceErrorKind::ConfigParse => ApiErrorCode::ConfigParse,
        }
    }
}

/// The HTTP status of a service error kind.
pub open spec fn spec_service_error_status(kind: ServiceErrorKind) -> u16 {
    match kind {
        ServiceErrorKind::NotFound => NOT_FOUND,
        ServiceErrorKind::Conflict | ServiceErrorKind::StateMismatch => CONFLICT,
        ServiceErrorKind::AuthError => UNAUTHORIZED,
        ServiceErrorKind::GatewayUnavailable => SERVICE_UNAVAILABLE,
        ServiceErrorKind::NetworkError => BAD_GATEWAY,
        ServiceErrorKind::GatewayRejected
        | ServiceErrorKind::SecretUnavailable
        | ServiceErrorKind::SecretUnsupported
        | ServiceErrorKind::ConfigValidation
        | ServiceErrorKind::ConfigParse => BAD_REQUEST,
        ServiceErrorKind::CannotCalculateChanges
        | ServiceErrorKind::StorageFailure
        | ServiceErrorKind::ConfigIo => INTERNAL_SERVER_ERROR,
    }
}

pub fn service_error_status(kind: ServiceErrorKind) -> (r: u16)
    ensures
        r == spec_service_error_status(kind),
{
    match kind {
        ServiceErrorKind::NotFound => NOT_FOUND,
        ServiceErrorKind::Conflict | ServiceErrorKind::StateMismatch => CONFLICT,
        ServiceErrorKind::AuthError => UNAUTHORIZED,
        ServiceErrorKind::GatewayUnavailable => SERVICE_UNAVAILABLE,
        ServiceErrorKind::NetworkError => BAD_GATEWAY,
        ServiceErrorKind::GatewayRejected
        | ServiceErrorKind::SecretUnavailable
        | ServiceErrorKind::SecretUnsupported
        | ServiceErrorKind::ConfigValidation
        | ServiceErrorKind::ConfigParse => BAD_REQUEST,
        ServiceErrorKind::CannotCalculateChanges
        | ServiceErrorKind::StorageFailure
        | ServiceErrorKind::ConfigIo => INTERNAL_SERVER_ERROR,
    }
}

/// The HTTP status and API code a runtime error code maps to.
pub open spec fn spec_runtime_status_code(code: RuntimeErrorCode) -> (u16, ApiErrorCode) {
    match code {
        RuntimeErrorCode::RuntimeNotReady => (SERVICE_UNAVAILABLE, ApiErrorCode::InternalError),
        RuntimeErrorCode::InvalidDescriptor | RuntimeErrorCode::InvalidMutation => (
            BAD_REQUEST,
            ApiErrorCode::InvalidQuery,
        ),
        RuntimeErrorCode::InvalidSecret => (BAD_REQUEST, ApiErrorCode::InvalidSecret),
        RuntimeErrorCode::InvalidAccount => (BAD_REQUEST, ApiErrorCode::InvalidAccount),
        RuntimeErrorCode::AccountBaseUrlRequired => (
            BAD_REQUEST,
            ApiErrorCode::AccountBaseUrlRequired,
        ),
        RuntimeErrorCode::AccountSecretRequired => (
            BAD_REQUEST,
            ApiErrorCode::AccountSecretRequired,
        ),
        RuntimeErrorCode::AccountUsernameRequired => (
            BAD_REQUEST,
            ApiErrorCode::AccountUsernameRequired,
        ),
        RuntimeErrorCode::AccountSenderRequired => (
            BAD_REQUEST,
            ApiErrorCode::AccountSenderRequired,
        ),
        RuntimeErrorCode::Unauthorized => (UNAUTHORIZED, ApiErrorCode::Unauthorized),
        RuntimeErrorCode::NotFound => (NOT_FOUND, ApiErrorCode::NotFound),
        RuntimeErrorCode::ProviderUnavailable => (
            SERVICE_UNAVAILABLE,
            ApiErrorCode::GatewayUnavailable,
        ),
        RuntimeErrorCode::Conflict => (CONFLICT, ApiErrorCode::Conflict),
        RuntimeErrorCode::NetworkError => (BAD_GATEWAY, ApiErrorCode::NetworkError),
        RuntimeErrorCode::StateMismatch => (CONFLICT, ApiErrorCode::StateMismatch),
        RuntimeErrorCode::GatewayRejected => (BAD_REQUEST, ApiErrorCode::GatewayRejected),
        RuntimeErrorCode::SecretUnavailable => (BAD_REQUEST, ApiErrorCode::SecretUnavailable),
        RuntimeErrorCode::SecretUnsupported => (BAD_REQUEST, ApiErrorCode::SecretUnsupported),
        RuntimeErrorCode::ConfigValidation => (BAD_REQUEST, ApiErrorCode::ConfigValidation),
        RuntimeErrorCode::ConfigParse => (BAD_REQUEST, ApiErrorCode::ConfigParse),
        RuntimeErrorCode::CannotCalculateChanges => (
            INTERNAL_SERVER_ERROR,
            ApiErrorCode::CannotCalculateChanges,
        ),
        RuntimeErrorCode::StorageFailure => (INTERNAL_SERVER_ERROR, ApiErrorCode::StorageFailure),
        RuntimeErrorCode::ConfigIo => (INTERNAL_SERVER_ERROR, ApiErrorCode::ConfigIo),
        RuntimeErrorCode::TransportDisconnected | RuntimeErrorCode::Internal => (
            INTERNAL_SERVER_ERROR,
            ApiErrorCode::InternalError,
        ),
    }
}

pub fn runtime_error_status_code(code: &RuntimeErrorCode) -> (r: (u16, ApiErrorCode))
    ensures
        r == spec_runtime_status_code(*code),
{
    match code {
        RuntimeErrorCode::RuntimeNotReady => (SERVICE_UNAVAILABLE, ApiErrorCode::InternalError),
        RuntimeErrorCode::InvalidDescriptor | RuntimeErrorCode::InvalidMutation => (
            BAD_REQUEST,
            ApiErrorCode::InvalidQuery,
        ),
        RuntimeErrorCode::InvalidSecret => (BAD_REQUEST, ApiErrorCode::InvalidSecret),
        RuntimeErrorCode::InvalidAccount => (BAD_REQUEST, ApiErrorCode::InvalidAccount),
        RuntimeErrorCode::AccountBaseUrlRequired => (
            BAD_REQUEST,
            ApiErrorCode::AccountBaseUrlRequired,
        ),
        RuntimeErrorCode::AccountSecretRequired => (
            BAD_REQUEST,
            ApiErrorCode::AccountSecretRequired,
        ),
        RuntimeErrorCode::AccountUsernameRequired => (
            BAD_REQUEST,
            ApiErrorCode::AccountUsernameRequired,
        ),
        RuntimeErrorCode::AccountSenderRequired => (
            BAD_REQUEST,
            ApiErrorCode::AccountSenderRequired,
        ),
        RuntimeErrorCode::Unauthorized => (UNAUTHORIZED, ApiErrorCode::Unauthorized),
        RuntimeErrorCode::NotFound => (NOT_FOUND, ApiErrorCode::NotFound),
        RuntimeErrorCode::ProviderUnavailable => (
            SERVICE_UNAVAILABLE,
            ApiErrorCode::GatewayUnavailable,
        ),
        RuntimeErrorCode::Conflict => (CONFLICT, ApiErrorCode::Conflict),
        RuntimeErrorCode::NetworkError => (BAD_GATEWAY, ApiErrorCode::NetworkError),
        RuntimeErrorCode::StateMismatch => (CONFLICT, ApiErrorCode::StateMismatch),
        RuntimeErrorCode::GatewayRejected => (BAD_REQUEST, ApiErrorCode::GatewayRejected),
        RuntimeErrorCode::SecretUnavailable => (BAD_REQUEST, ApiErrorCode::SecretUnavailable),
        RuntimeErrorCode::SecretUnsupported => (BAD_REQUEST, ApiErrorCode::SecretUnsupported),
        RuntimeErrorCode::ConfigValidation => (BAD_REQUEST, ApiErrorCode::ConfigValidation),
        RuntimeErrorCode::ConfigParse => (BAD_REQUEST, ApiErrorCode::ConfigParse),
        RuntimeErrorCode::CannotCalculateChanges => (
            INTERNAL_SERVER_ERROR,
            ApiErrorCode::CannotCalculateChanges,
        ),
        RuntimeErrorCode::StorageFailure => (INTERNAL_SERVER_ERROR, ApiErrorCode::StorageFailure),
        RuntimeErrorCode::ConfigIo => (INTERNAL_SERVER_ERROR, ApiErrorCode::ConfigIo),
        RuntimeErrorCode::TransportDisconnected | RuntimeErrorCode::Internal => (
            INTERNAL_SERVER_ERROR,
            ApiErrorCode::InternalError,
        ),
    }
}

/// JSON error body of every API error path. `details` is JSON text.
#[derive(Debug)]
pub struct ApiErrorBody {
    pub code: ApiErrorCode,
    pub message: String,
    pub details: String,
}

/// An API error: HTTP status plus JSON body.
#[derive(Debug)]
pub struct ApiError {
    pub status: u16,
    pub body: ApiErrorBody,
}

impl ApiError {
    /// An error with explicit status, code and message, and empty details.
    pub fn new(status: u16, code: ApiErrorCode, message: String) -> (r: Self)
        ensures
            r.status == status,
            r.body.code == code,
            r.body.message == message,
            r.body.details@ == "{}"@,
    {
        ApiError { status, body: ApiErrorBody { code, message, details: owned("{}") } }
    }

    /// Map a domain service error to its status and same-named code.
    pub fn from_service_error(error: ServiceError) -> (r: Self)
        ensures
            r.status == spec_service_error_status(error.kind),
            r.body.code == spec_api_code_of_kind(error.kind),
            r.body.message == error.message,
            r.body.details@ == "{}"@,
    {
        let status = service_error_status(error.kind);
        ApiError {
            status,
            body: ApiErrorBody {
                code: ApiErrorCode::from_kind(error.kind),
                message: error.message,
                details: owned("{}"),
            },
        }
    }

    /// Map a runtime-contract error to the `/v1` envelope, keeping its message
    /// and details.
    pub fn from_runtime_error(error: RuntimeError) -> (r: Self)
        ensures
            (r.status, r.body.code) == spec_runtime_status_code(error.0.code),
            r.body.message == error.0.message,
            r.body.details == error.0.details,
    {
        let (status, code) = runtime_error_status_code(&error.0.code);
        let RuntimeError(envelope) = error;
        ApiError {
            status,
            body: ApiErrorBody { code, message: envelope.message, details: envelope.details },
        }
    }
}

/// A 500 Internal Server Error carrying `message`.
pub fn internal_error(message: String) -> (r: ApiError)
    ensures
        r.status == INTERNAL_SERVER_ERROR,
        r.body.code == ApiErrorCode::InternalError,
        r.body.message == message,
        r.body.details@ == "{}"@,
{
    ApiError::new(INTERNAL_SERVER_ERROR, ApiErrorCode::InternalError, message)
}

/// A 400 Bad Request with the given code and literal message.
pub fn bad_request(code: ApiErrorCode, message: &str) -> (r: ApiError)
    ensures
        r.status == BAD_REQUEST,
        r.body.code == code,
        r.body.message@ == message@,
        r.body.details@ == "{}"@,
{
    ApiError::new(BAD_REQUEST, code, owned(message))
}

} // verus!

verus! {

/// `r` is the outcome a check decides: `Ok` when it found nothing, else a
/// 400 carrying the code and message of the first failed rule.
pub open spec fn check_outcome<T>(r: Result<T, ApiError>, check: Option<(ApiErrorCode, Seq<char>)>) -> bool {
    match check {
        None => r is Ok,
        Some((code, msg)) => r matches Err(e) && e.status == BAD_REQUEST && e.body.code == code
            && e.body.message@ == msg && e.body.details@ == "{}"@,
    }
}

} // verus!
