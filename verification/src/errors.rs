//! The error taxonomy and its user-facing classification.
//!
//! Failures of the collaborators (storage, HTTP, I/O) are carried as the text
//! that they print. Every error maps to a stable classification code, an HTTP
//! status and a message for the consumer.
use vstd::prelude::*;
use vstd::string::*;

use crate::text::joined;

verus! {

/// The body of a reported failure.
#[derive(Debug)]
pub struct ApiErrorDetail {
    pub code: &'static str,
    pub message: String,
    pub trace_id: String,
}

/// The envelope of a reported failure; `ok` is always `false`.
#[derive(Debug)]
pub struct ErrorResponse {
    pub ok: bool,
    pub error: ApiErrorDetail,
}

/// Whether a number is an HTTP status code.
pub open spec fn is_status_code(code: int) -> bool {
    100 <= code <= 999
}

/// An HTTP status code: a number from 100 to 999.
#[derive(Clone, Copy, Debug, PartialEq, Eq, Structural)]
pub struct HttpStatus {
    code: u16,
}

impl HttpStatus {
    #[verifier::type_invariant]
    pub closed spec fn inv(self) -> bool {
        is_status_code(self.code as int)
    }

    /// The number of the status code.
    pub closed spec fn value(self) -> u16 {
        self.code
    }

    /// The status code with a number.
    pub closed spec fn of(code: u16) -> HttpStatus
        recommends
            is_status_code(code as int),
    {
        HttpStatus { code }
    }

    /// The number of `of` is the one given, and a status code is determined
    /// by its number.
    pub proof fn lemma_of(code: u16)
        ensures
            HttpStatus::of(code).value() == code,
            forall|s: HttpStatus| s.value() == code ==> s == HttpStatus::of(code),
    {
    }

    /// The status code with a number, where the number is one.
    pub fn new(code: u16) -> (r: Option<HttpStatus>)
        ensures
            r is Some <==> is_status_code(code as int),
            r is Some ==> r == Some(HttpStatus::of(code)),
    {
        if 100 <= code && code <= 999 {
            Some(HttpStatus { code })
        } else {
            None
        }
    }

    /// The number of the status code.
    pub fn code(&self) -> (r: u16)
        ensures
            r == self.value(),
            is_status_code(r as int),
    {
        proof {
            use_type_invariant(self);
        }
        self.code
    }

    /// 200 OK.
    pub fn ok() -> (r: HttpStatus)
        ensures
            r == HttpStatus::of(STATUS_OK),
    {
        HttpStatus { code: STATUS_OK }
    }

    /// 400 Bad Request.
    pub fn bad_request() -> (r: HttpStatus)
        ensures
            r == HttpStatus::of(STATUS_BAD_REQUEST),
    {
        HttpStatus { code: STATUS_BAD_REQUEST }
    }

    /// 404 Not Found.
    pub fn not_found() -> (r: HttpStatus)
        ensures
            r == HttpStatus::of(STATUS_NOT_FOUND),
    {
        HttpStatus { code: STATUS_NOT_FOUND }
    }

    /// 500 Internal Server Error.
    pub fn internal_server_error() -> (r: HttpStatus)
        ensures
            r == HttpStatus::of(STATUS_INTERNAL_SERVER_ERROR),
    {
        HttpStatus { code: STATUS_INTERNAL_SERVER_ERROR }
    }

    /// 502 Bad Gateway.
    pub fn bad_gateway() -> (r: HttpStatus)
        ensures
            r == HttpStatus::of(STATUS_BAD_GATEWAY),
    {
        HttpStatus { code: STATUS_BAD_GATEWAY }
    }
}

/// Every failure the service can report.
#[derive(Debug)]
pub enum AppError {
    /// A storage operation failed.
    Sqlx(String),
    /// The HTTP client failed.
    ReqwestError(String),
    /// The HTTP client's middleware chain failed.
    ReqwestMiddlewareError(String),
    /// An unclassified internal failure.
    AnyhowError(String),
    /// A required setting is missing or malformed.
    ConfigError(String),
    /// No data is available yet.
    NotFound(String),
    /// An upstream call failed; the status is the one to hand on.
    ClientError(String, HttpStatus),
    /// An input or output operation failed.
    IoError(String),
    InternalError(String),
    ExternalServiceError(String),
    SerializationError(String),
    /// A named upstream API could not be reached.
    ExternalApiError { source: String, api_name: String },
    /// A named upstream API answered with a failure status.
    ExternalApiStatusError { status: HttpStatus, api_name: String, message: String },
    /// An upstream answer could not be decoded.
    DeserializationError { source: String, message: String },
}

pub const STATUS_OK: u16 = 200;

pub const STATUS_BAD_REQUEST: u16 = 400;

pub const STATUS_NOT_FOUND: u16 = 404;

pub const STATUS_INTERNAL_SERVER_ERROR: u16 = 500;

pub const STATUS_BAD_GATEWAY: u16 = 502;

/// What `http` prints for a status code: the number, a space and the
/// canonical reason phrase, or a placeholder where the code has no such
/// phrase. `None` for a number that is no status code.
pub uninterp spec fn status_text(code: u16) -> Option<Seq<char>>;

/// `http::StatusCode::from_u16` followed by the status code's `Display`.
/// The contract says that there is a text exactly for the numbers from 100
/// to 999, and names the text.
#[verifier::external_body]
fn status_display(code: u16) -> (r: Option<String>)
    ensures
        r.is_some() == is_status_code(code as int),
        r.is_some() == status_text(code).is_some(),
        r.is_some() ==> r.unwrap()@ == status_text(code).unwrap(),
{
    match axum::http::StatusCode::from_u16(code) {
        Ok(status) => Some(status.to_string()),
        Err(_) => None,
    }
}

/// `uuid::Uuid::new_v4` printed in its hyphenated form. The identifier is
/// random; only its length is promised.
#[verifier::external_body]
fn fresh_trace_id() -> (r: String)
    ensures
        r@.len() == 36,
{
    uuid::Uuid::new_v4().to_string()
}

/// The text shown for a status code; empty for a number that is none.
pub open spec fn shown_status(text: Option<Seq<char>>) -> Seq<char> {
    match text {
        Some(t) => t,
        None => Seq::empty(),
    }
}

impl AppError {
    /// The stable classification code.
    pub open spec fn code_spec(&self) -> Seq<char> {
        match self {
            AppError::Sqlx(_) => "DB_ERROR"@,
            AppError::ReqwestError(_) => "UPSTREAM_API_ERROR"@,
            AppError::ReqwestMiddlewareError(_) => "MIDDLEWARE_ERROR"@,
            AppError::AnyhowError(_) => "INTERNAL_ERROR"@,
            AppError::ConfigError(_) => "CONFIG_ERROR"@,
            AppError::NotFound(_) => "NOT_FOUND"@,
            AppError::ClientError(_, _) => "CLIENT_ERROR"@,
            AppError::IoError(_) => "IO_ERROR"@,
            AppError::InternalError(_) => "INTERNAL_ERROR"@,
            AppError::ExternalServiceError(_) => "EXTERNAL_SERVICE_ERROR"@,
            AppError::SerializationError(_) => "SERIALIZATION_ERROR"@,
            AppError::ExternalApiError { .. } => "EXTERNAL_API_ERROR"@,
            AppError::ExternalApiStatusError { .. } => "EXTERNAL_API_STATUS_ERROR"@,
            AppError::DeserializationError { .. } => "DESERIALIZATION_ERROR"@,
        }
    }

    /// The HTTP status that classifies the error.
    pub open spec fn status_spec(&self) -> u16 {
        match self {
            AppError::Sqlx(_) => STATUS_INTERNAL_SERVER_ERROR,
            AppError::ReqwestError(_) => STATUS_BAD_GATEWAY,
            AppError::ReqwestMiddlewareError(_) => STATUS_BAD_GATEWAY,
            AppError::AnyhowError(_) => STATUS_INTERNAL_SERVER_ERROR,
            AppError::ConfigError(_) => STATUS_INTERNAL_SERVER_ERROR,
            AppError::NotFound(_) => STATUS_NOT_FOUND,
            AppError::ClientError(_, status) => status.value(),
            AppError::IoError(_) => STATUS_INTERNAL_SERVER_ERROR,
            AppError::InternalError(_) => STATUS_INTERNAL_SERVER_ERROR,
            AppError::ExternalServiceError(_) => STATUS_BAD_GATEWAY,
            AppError::SerializationError(_) => STATUS_BAD_REQUEST,
            AppError::ExternalApiError { .. } => STATUS_BAD_GATEWAY,
            AppError::ExternalApiStatusError { status, .. } => status.value(),
            AppError::DeserializationError { .. } => STATUS_BAD_REQUEST,
        }
    }

    /// The message for the consumer. `status` is the text of the error's own
    /// status code, which only `ClientError` prints.
    pub open spec fn message_spec(&self, status: Seq<char>) -> Seq<char> {
        match self {
            AppError::Sqlx(_) => "Internal database operation failed."@,
            AppError::ReqwestError(e) => "API request failed: "@ + e@,
            AppError::ReqwestMiddlewareError(e) => "Middleware error: "@ + e@,
            AppError::AnyhowError(e) => "Internal error: "@ + e@,
            AppError::ConfigError(e) => "Configuration error: "@ + e@,
            AppError::NotFound(e) => e@,
            AppError::ClientError(msg, _) => "Client error: "@ + msg@ + " (Status: "@ + status
                + ")"@,
            AppError::IoError(e) => "I/O error: "@ + e@,
            AppError::InternalError(msg) => msg@,
            AppError::ExternalServiceError(msg) => msg@,
            AppError::SerializationError(msg) => msg@,
            AppError::ExternalApiError { api_name, .. } => "External API '"@ + api_name@
                + "' error"@,
            AppError::ExternalApiStatusError { api_name, message, .. } => "External API '"@
                + api_name@ + "' returned error: "@ + message@,
            AppError::DeserializationError { message, .. } => message@,
        }
    }

    /// The one-line description of the error. `status` is the text of the
    /// error's own status code, which only `ExternalApiStatusError` prints.
    pub open spec fn text_spec(&self, status: Seq<char>) -> Seq<char> {
        match self {
            AppError::Sqlx(e) => "Database error: "@ + e@,
            AppError::ReqwestError(e) => "Reqwest client error: "@ + e@,
            AppError::ReqwestMiddlewareError(e) => "Reqwest middleware error: "@ + e@,
            AppError::AnyhowError(e) => "Anyhow error: "@ + e@,
            AppError::ConfigError(e) => "Configuration Error: "@ + e@,
            AppError::NotFound(e) => "Resource Not Found: "@ + e@,
            AppError::ClientError(msg, _) => "Upstream API error: "@ + msg@,
            AppError::IoError(e) => "I/O error: "@ + e@,
            AppError::InternalError(msg) => "Internal error: "@ + msg@,
            AppError::ExternalServiceError(msg) => "External service error: "@ + msg@,
            AppError::SerializationError(msg) => "Serialization error: "@ + msg@,
            AppError::ExternalApiError { source, api_name } => "External API error from "@
                + api_name@ + ": "@ + source@,
            AppError::ExternalApiStatusError { .. } => "External API returned error status: "@
                + status,
            AppError::DeserializationError { source, message } => "Deserialization error: "@
                + message@ + " - "@ + source@,
        }
    }

    pub fn code(&self) -> (r: &'static str)
        ensures
            r@ == self.code_spec(),
    {
        match self {
            AppError::Sqlx(_) => "DB_ERROR",
            AppError::ReqwestError(_) => "UPSTREAM_API_ERROR",
            AppError::ReqwestMiddlewareError(_) => "MIDDLEWARE_ERROR",
            AppError::AnyhowError(_) => "INTERNAL_ERROR",
            AppError::ConfigError(_) => "CONFIG_ERROR",
            AppError::NotFound(_) => "NOT_FOUND",
            AppError::ClientError(_, _) => "CLIENT_ERROR",
            AppError::IoError(_) => "IO_ERROR",
            AppError::InternalError(_) => "INTERNAL_ERROR",
            AppError::ExternalServiceError(_) => "EXTERNAL_SERVICE_ERROR",
            AppError::SerializationError(_) => "SERIALIZATION_ERROR",
            AppError::ExternalApiError { .. } => "EXTERNAL_API_ERROR",
            AppError::ExternalApiStatusError { .. } => "EXTERNAL_API_STATUS_ERROR",
            AppError::DeserializationError { .. } => "DESERIALIZATION_ERROR",
        }
    }

    /// The HTTP status that classifies the error.
    pub fn status(&self) -> (r: HttpStatus)
        ensures
            r.value() == self.status_spec(),
    {
        proof {
            HttpStatus::lemma_of(STATUS_BAD_REQUEST);
            HttpStatus::lemma_of(STATUS_NOT_FOUND);
            HttpStatus::lemma_of(STATUS_INTERNAL_SERVER_ERROR);
            HttpStatus::lemma_of(STATUS_BAD_GATEWAY);
        }
        match self {
            AppError::Sqlx(_) => HttpStatus::internal_server_error(),
            AppError::ReqwestError(_) => HttpStatus::bad_gateway(),
            AppError::ReqwestMiddlewareError(_) => HttpStatus::bad_gateway(),
            AppError::AnyhowError(_) => HttpStatus::internal_server_error(),
            AppError::ConfigError(_) => HttpStatus::internal_server_error(),
            AppError::NotFound(_) => HttpStatus::not_found(),
            AppError::ClientError(_, status) => *status,
            AppError::IoError(_) => HttpStatus::internal_server_error(),
            AppError::InternalError(_) => HttpStatus::internal_server_error(),
            AppError::ExternalServiceError(_) => HttpStatus::bad_gateway(),
            AppError::SerializationError(_) => HttpStatus::bad_request(),
            AppError::ExternalApiError { .. } => HttpStatus::bad_gateway(),
            AppError::ExternalApiStatusError { status, .. } => *status,
            AppError::DeserializationError { .. } => HttpStatus::bad_request(),
        }
    }

    /// The message for the consumer, given the text of the error's status.
    pub fn message_with(&self, status: &str) -> (r: String)
        ensures
            r@ == self.message_spec(status@),
    {
        match self {
            AppError::Sqlx(_) => "Internal database operation failed.".to_string(),
            AppError::ReqwestError(e) => joined("API request failed: ", e.as_str()),
            AppError::ReqwestMiddlewareError(e) => joined("Middleware error: ", e.as_str()),
            AppError::AnyhowError(e) => joined("Internal error: ", e.as_str()),
            AppError::ConfigError(e) => joined("Configuration error: ", e.as_str()),
            AppError::NotFound(e) => e.clone(),
            AppError::ClientError(msg, _) => {
                let mut s = joined("Client error: ", msg.as_str());
                s.append(" (Status: ");
                s.append(status);
                s.append(")");
                s
            },
            AppError::IoError(e) => joined("I/O error: ", e.as_str()),
            AppError::InternalError(msg) => msg.clone(),
            AppError::ExternalServiceError(msg) => msg.clone(),
            AppError::SerializationError(msg) => msg.clone(),
            AppError::ExternalApiError { api_name, .. } => {
                let mut s = joined("External API '", api_name.as_str());
                s.append("' error");
                s
            },
            AppError::ExternalApiStatusError { api_name, message, .. } => {
                let mut s = joined("External API '", api_name.as_str());
                s.append("' returned error: ");
                s.append(message.as_str());
                s
            },
            AppError::DeserializationError { message, .. } => message.clone(),
        }
    }

    /// The one-line description, given the text of the error's status.
    pub fn text_with(&self, status: &str) -> (r: String)
        ensures
            r@ == self.text_spec(status@),
    {
        match self {
            AppError::Sqlx(e) => joined("Database error: ", e.as_str()),
            AppError::ReqwestError(e) => joined("Reqwest client error: ", e.as_str()),
            AppError::ReqwestMiddlewareError(e) => joined(
                "Reqwest middleware error: ",
                e.as_str(),
            ),
            AppError::AnyhowError(e) => joined("Anyhow error: ", e.as_str()),
            AppError::ConfigError(e) => joined("Configuration Error: ", e.as_str()),
            AppError::NotFound(e) => joined("Resource Not Found: ", e.as_str()),
            AppError::ClientError(msg, _) => joined("Upstream API error: ", msg.as_str()),
            AppError::IoError(e) => joined("I/O error: ", e.as_str()),
            AppError::InternalError(msg) => joined("Internal error: ", msg.as_str()),
            AppError::ExternalServiceError(msg) => joined(
                "External service error: ",
                msg.as_str(),
            ),
            AppError::SerializationError(msg) => joined("Serialization error: ", msg.as_str()),
            AppError::ExternalApiError { source, api_name } => {
                let mut s = joined("External API error from ", api_name.as_str());
                s.append(": ");
                s.append(source.as_str());
                s
            },
            AppError::ExternalApiStatusError { .. } => joined(
                "External API returned error status: ",
                status,
            ),
            AppError::DeserializationError { source, message } => {
                let mut s = joined("Deserialization error: ", message.as_str());
                s.append(" - ");
                s.append(source.as_str());
                s
            },
        }
    }

    /// The text of the error's own status code.
    pub fn status_shown(&self) -> (r: String)
        ensures
            r@ == shown_status(status_text(self.status_spec())),
            status_text(self.status_spec()) == Some(r@),
    {
        match status_display(self.status().code()) {
            Some(t) => t,
            None => String::new(),
        }
    }

    /// The message for the consumer.
    pub fn message(&self) -> (r: String)
        ensures
            r@ == self.message_spec(shown_status(status_text(self.status_spec()))),
    {
        let shown = self.status_shown();
        self.message_with(shown.as_str())
    }

    /// The one-line description of the error.
    pub fn to_text(&self) -> (r: String)
        ensures
            r@ == self.text_spec(shown_status(status_text(self.status_spec()))),
    {
        let shown = self.status_shown();
        self.text_with(shown.as_str())
    }

    /// The classification of the error under a given trace identifier: its
    /// status, and the detail reported to the consumer.
    pub fn error_detail(&self, trace_id: String) -> (r: (HttpStatus, ApiErrorDetail))
        ensures
            r.0.value() == self.status_spec(),
            r.1.code@ == self.code_spec(),
            r.1.message@ == self.message_spec(shown_status(status_text(self.status_spec()))),
            r.1.trace_id == trace_id,
    {
        let detail = ApiErrorDetail { code: self.code(), message: self.message(), trace_id };
        (self.status(), detail)
    }

    /// The response for the consumer: always sent with status 200, the failure
    /// in the body under a fresh trace identifier.
    pub fn into_response(self) -> (r: (HttpStatus, ErrorResponse))
        ensures
            r.0 == HttpStatus::of(STATUS_OK),
            !r.1.ok,
            r.1.error.code@ == self.code_spec(),
            r.1.error.message@ == self.message_spec(
                shown_status(status_text(self.status_spec())),
            ),
            r.1.error.trace_id@.len() == 36,
    {
        let (_, detail) = self.error_detail(fresh_trace_id());
        (HttpStatus::ok(), ErrorResponse { ok: false, error: detail })
    }
}

} // verus!
