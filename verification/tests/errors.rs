use rust_iss::errors::{AppError, HttpStatus};

fn status(code: u16) -> HttpStatus {
    HttpStatus::new(code).unwrap()
}

fn all() -> Vec<(AppError, u16, &'static str, &'static str, &'static str)> {
    let s = |t: &str| t.to_string();
    vec![
        (AppError::Sqlx(s("pool timed out")), 500, "DB_ERROR", "Internal database operation failed.", "Database error: pool timed out"),
        (AppError::ReqwestError(s("dns")), 502, "UPSTREAM_API_ERROR", "API request failed: dns", "Reqwest client error: dns"),
        (AppError::ReqwestMiddlewareError(s("retry")), 502, "MIDDLEWARE_ERROR", "Middleware error: retry", "Reqwest middleware error: retry"),
        (AppError::AnyhowError(s("oops")), 500, "INTERNAL_ERROR", "Internal error: oops", "Anyhow error: oops"),
        (AppError::ConfigError(s("X is required")), 500, "CONFIG_ERROR", "Configuration error: X is required", "Configuration Error: X is required"),
        (AppError::NotFound(s("no data")), 404, "NOT_FOUND", "no data", "Resource Not Found: no data"),
        (AppError::ClientError(s("refused"), status(502)), 502, "CLIENT_ERROR", "Client error: refused (Status: 502 Bad Gateway)", "Upstream API error: refused"),
        (AppError::IoError(s("disk")), 500, "IO_ERROR", "I/O error: disk", "I/O error: disk"),
        (AppError::InternalError(s("bug")), 500, "INTERNAL_ERROR", "bug", "Internal error: bug"),
        (AppError::ExternalServiceError(s("redis")), 502, "EXTERNAL_SERVICE_ERROR", "redis", "External service error: redis"),
        (AppError::SerializationError(s("bad")), 400, "SERIALIZATION_ERROR", "bad", "Serialization error: bad"),
        (AppError::ExternalApiError { source: s("t/o"), api_name: s("NASA") }, 502, "EXTERNAL_API_ERROR", "External API 'NASA' error", "External API error from NASA: t/o"),
        (AppError::ExternalApiStatusError { status: status(429), api_name: s("NASA"), message: s("slow down") }, 429, "EXTERNAL_API_STATUS_ERROR", "External API 'NASA' returned error: slow down", "External API returned error status: 429 Too Many Requests"),
        (AppError::DeserializationError { source: s("eof"), message: s("short body") }, 400, "DESERIALIZATION_ERROR", "short body", "Deserialization error: short body - eof"),
    ]
}

#[test]
fn every_error_has_a_stable_classification() {
    for (e, status, code, message, text) in all() {
        assert_eq!(e.status().code(), status);
        assert_eq!(e.code(), code);
        assert_eq!(e.message(), message);
        assert_eq!(e.to_text(), text);
    }
}

#[test]
fn error_detail_carries_the_trace_id() {
    for (e, status, code, message, _) in all() {
        let (s, d) = e.error_detail(String::from("trace-1"));
        assert_eq!(s.code(), status);
        assert_eq!(d.code, code);
        assert_eq!(d.message, message);
        assert_eq!(d.trace_id, "trace-1");
    }
}

#[test]
fn response_is_sent_with_status_ok() {
    let mut seen = Vec::new();
    for (e, _, code, message, _) in all() {
        let (status, body) = e.into_response();
        assert_eq!(status.code(), 200);
        assert_eq!(status, HttpStatus::ok());
        assert!(!body.ok);
        assert_eq!(body.error.code, code);
        assert_eq!(body.error.message, message);
        assert_eq!(body.error.trace_id.chars().count(), 36);
        assert!(uuid::Uuid::parse_str(&body.error.trace_id).is_ok());
        seen.push(body.error.trace_id);
    }
    seen.sort();
    seen.dedup();
    assert_eq!(seen.len(), 14);
}

#[test]
fn status_text_is_that_of_the_status_code() {
    assert_eq!(AppError::ClientError(String::new(), status(404)).status_shown(), "404 Not Found");
    assert_eq!(AppError::ClientError(String::new(), status(599)).status_shown(), "599 <unknown status code>");
    assert_eq!(AppError::ClientError(String::new(), status(100)).status_shown(), "100 Continue");
    assert_eq!(AppError::ClientError(String::from("m"), status(999)).message(), "Client error: m (Status: 999 <unknown status code>)");
    assert_eq!(AppError::NotFound(String::new()).status_shown(), "404 Not Found");
}

#[test]
fn messages_take_the_status_text_given() {
    let e = AppError::ClientError(String::from("m"), status(502));
    assert_eq!(e.message_with("gone"), "Client error: m (Status: gone)");
    let f = AppError::ExternalApiStatusError { status: status(500), api_name: String::from("a"), message: String::from("b") };
    assert_eq!(f.text_with("gone"), "External API returned error status: gone");
    assert_eq!(f.message_with("gone"), "External API 'a' returned error: b");
}

#[test]
fn status_codes_run_from_100_to_999() {
    for code in [0u16, 1, 99, 1000, 1001, u16::MAX] {
        assert_eq!(HttpStatus::new(code), None);
    }
    for code in [100u16, 200, 404, 502, 599, 999] {
        assert_eq!(HttpStatus::new(code).unwrap().code(), code);
    }
    assert_eq!(HttpStatus::ok().code(), 200);
    assert_eq!(HttpStatus::bad_request().code(), 400);
    assert_eq!(HttpStatus::not_found().code(), 404);
    assert_eq!(HttpStatus::internal_server_error().code(), 500);
    assert_eq!(HttpStatus::bad_gateway().code(), 502);
}
