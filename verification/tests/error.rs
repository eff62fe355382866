use vault_market::error::{AppError, ErrorResponse};
use vault_market::error_types::{
    BAD_REQUEST, CONFIG_ERROR, CSRF_VIOLATION, DATABASE_ERROR, FORBIDDEN, INTERNAL_ERROR,
    INVALID_ORIGIN, NOT_FOUND, OAUTH_ERROR, SESSION_EXPIRED, STORAGE_ERROR, UNAUTHORIZED,
    VALIDATION_ERROR,
};

fn parts(e: AppError) -> (u16, String, String) {
    let (status, body) = e.into_response();
    assert_eq!(body.code, None);
    (status, body.error, body.message)
}

fn expect(e: AppError, status: u16, error: &str, message: &str) {
    assert_eq!(parts(e), (status, error.to_string(), message.to_string()));
}

#[test]
fn answers_of_the_callers_own_failures() {
    expect(AppError::not_found("no such thing"), 404, "not_found", "no such thing");
    expect(AppError::unauthorized("who are you"), 401, "unauthorized", "who are you");
    expect(AppError::forbidden(), 403, "forbidden", "Forbidden");
    expect(AppError::CsrfViolation, 403, "csrf_violation", "CSRF validation failed");
    expect(AppError::InvalidOrigin, 403, "invalid_origin", "Invalid origin");
    expect(AppError::bad_request("bad"), 400, "bad_request", "bad");
    expect(AppError::validation("too long"), 422, "validation_error", "too long");
    expect(AppError::oauth_error("denied"), 400, "oauth_error", "denied");
    expect(AppError::SessionExpired, 401, "session_expired", "Session has expired");
}

#[test]
fn answers_of_internal_failures_hide_the_detail() {
    expect(AppError::database("relation x"), 500, "database_error", "Database error");
    expect(AppError::internal("stack"), 500, "internal_error", "Internal server error");
    expect(AppError::config("missing key"), 500, "config_error", "Configuration error");
    expect(AppError::storage("bucket"), 500, "storage_error", "Storage error");
    expect(
        AppError::database_with_context("insert", "vaults", "duplicate key", Some(7)),
        500,
        "database_error",
        "Database error",
    );
    expect(
        AppError::database_with_entity("update", "user_wallet", "deadlock", None, Some(9)),
        500,
        "database_error",
        "Database error",
    );
}

#[test]
fn constructors_with_context() {
    assert_eq!(
        AppError::database_with_context("insert", "vaults", "duplicate key", Some(7)),
        AppError::DatabaseWithContext {
            operation: "insert".to_string(),
            table: "vaults".to_string(),
            message: "duplicate key".to_string(),
            user_id: Some(7),
            entity_id: None,
        }
    );
    assert_eq!(
        AppError::database_with_entity("update", "user_wallet", "deadlock", None, Some(9)),
        AppError::DatabaseWithContext {
            operation: "update".to_string(),
            table: "user_wallet".to_string(),
            message: "deadlock".to_string(),
            user_id: None,
            entity_id: Some(9),
        }
    );
}

#[test]
fn failures_written_out() {
    assert_eq!(AppError::not_found("x").to_text(), "Not found: x");
    assert_eq!(AppError::unauthorized("x").to_text(), "Unauthorized: x");
    assert_eq!(AppError::forbidden().to_text(), "Forbidden");
    assert_eq!(AppError::CsrfViolation.to_text(), "CSRF violation");
    assert_eq!(AppError::InvalidOrigin.to_text(), "Invalid origin");
    assert_eq!(AppError::bad_request("x").to_text(), "Bad request: x");
    assert_eq!(AppError::validation("x").to_text(), "Validation error: x");
    assert_eq!(AppError::oauth_error("x").to_text(), "OAuth error: x");
    assert_eq!(AppError::SessionExpired.to_text(), "Session expired");
    assert_eq!(AppError::database("x").to_text(), "Database error: x");
    assert_eq!(
        AppError::database_with_context("select", "vaults", "timeout", None).to_text(),
        "Database error in select on vaults: timeout"
    );
    assert_eq!(AppError::internal("x").to_text(), "Internal error: x");
    assert_eq!(AppError::config("x").to_text(), "Configuration error: x");
    assert_eq!(AppError::storage("x").to_text(), "Storage error: x");
}

#[test]
fn tags_of_the_answers() {
    let cases = [
        (AppError::not_found("x"), NOT_FOUND, "not_found"),
        (AppError::unauthorized("x"), UNAUTHORIZED, "unauthorized"),
        (AppError::forbidden(), FORBIDDEN, "forbidden"),
        (AppError::CsrfViolation, CSRF_VIOLATION, "csrf_violation"),
        (AppError::InvalidOrigin, INVALID_ORIGIN, "invalid_origin"),
        (AppError::bad_request("x"), BAD_REQUEST, "bad_request"),
        (AppError::validation("x"), VALIDATION_ERROR, "validation_error"),
        (AppError::oauth_error("x"), OAUTH_ERROR, "oauth_error"),
        (AppError::SessionExpired, SESSION_EXPIRED, "session_expired"),
        (AppError::database("x"), DATABASE_ERROR, "database_error"),
        (AppError::internal("x"), INTERNAL_ERROR, "internal_error"),
        (AppError::config("x"), CONFIG_ERROR, "config_error"),
        (AppError::storage("x"), STORAGE_ERROR, "storage_error"),
    ];
    for (e, tag, text) in cases {
        assert_eq!(tag, text);
        assert_eq!(e.into_response().1.error, text);
    }
}

#[test]
fn nothing_of_a_database_failure_reaches_the_answer() {
    let e = AppError::database_with_entity(
        "UPDATE",
        "vaults",
        "deadlock detected",
        Some(77),
        Some(99),
    );
    let (status, body) = e.into_response();
    assert_eq!(status, 500);
    assert_eq!(body.error, "database_error");
    assert_eq!(body.message, "Database error");
    for hidden in ["UPDATE", "vaults", "deadlock", "77", "99"] {
        assert!(!body.message.contains(hidden));
    }
}

#[test]
fn body_of_an_answer() {
    let (_, body) = AppError::bad_request("nope").into_response();
    assert_eq!(
        body,
        ErrorResponse { error: "bad_request".to_string(), message: "nope".to_string(), code: None }
    );
}
