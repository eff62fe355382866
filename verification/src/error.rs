//! The failures that an operation can report, and how each is shown to a
//! caller.

use vstd::prelude::*;
use vstd::string::*;
use crate::error_types::BAD_REQUEST;
use crate::error_types::CONFIG_ERROR;
use crate::error_types::CSRF_VIOLATION;
use crate::error_types::DATABASE_ERROR;
use crate::error_types::FORBIDDEN;
use crate::error_types::INTERNAL_ERROR;
use crate::error_types::INVALID_ORIGIN;
use crate::error_types::NOT_FOUND;
use crate::error_types::OAUTH_ERROR;
use crate::error_types::SESSION_EXPIRED;
use crate::error_types::STORAGE_ERROR;
use crate::error_types::UNAUTHORIZED;
use crate::error_types::VALIDATION_ERROR;

verus! {

/// A failure of an operation.
#[derive(Debug, Clone, PartialEq, Eq)]
pub enum AppError {
    NotFound(String),
    Unauthorized(String),
    Forbidden,
    CsrfViolation,
    InvalidOrigin,
    BadRequest(String),
    Validation(String),
    OAuthError(String),
    SessionExpired,
    Database(String),
    /// A database failure together with the operation and the table it
    /// concerns, and the user and the entity where they are known.
    DatabaseWithContext {
        operation: String,
        table: String,
        message: String,
        user_id: Option<u128>,
        entity_id: Option<u128>,
    },
    Internal(String),
    Config(String),
    Storage(String),
}

/// The body of the answer that reports a failure.
#[derive(Debug, Clone, PartialEq, Eq)]
pub struct ErrorResponse {
    pub error: String,
    pub message: String,
    pub code: Option<String>,
}

impl AppError {
    /// The status code of the answer.
    pub open spec fn status(&self) -> u16 {
        match self {
            AppError::NotFound(_) => 404,
            AppError::Unauthorized(_) => 401,
            AppError::Forbidden => 403,
            AppError::CsrfViolation => 403,
            AppError::InvalidOrigin => 403,
            AppError::BadRequest(_) => 400,
            AppError::Validation(_) => 422,
            AppError::OAuthError(_) => 400,
            AppError::SessionExpired => 401,
            AppError::Database(_) => 500,
            AppError::DatabaseWithContext { .. } => 500,
            AppError::Internal(_) => 500,
            AppError::Config(_) => 500,
            AppError::Storage(_) => 500,
        }
    }

    /// The machine-readable tag of the failure.
    pub open spec fn error_type(&self) -> Seq<char> {
        match self {
            AppError::NotFound(_) => NOT_FOUND@,
            AppError::Unauthorized(_) => UNAUTHORIZED@,
            AppError::Forbidden => FORBIDDEN@,
            AppError::CsrfViolation => CSRF_VIOLATION@,
            AppError::InvalidOrigin => INVALID_ORIGIN@,
            AppError::BadRequest(_) => BAD_REQUEST@,
            AppError::Validation(_) => VALIDATION_ERROR@,
            AppError::OAuthError(_) => OAUTH_ERROR@,
            AppError::SessionExpired => SESSION_EXPIRED@,
            AppError::Database(_) => DATABASE_ERROR@,
            AppError::DatabaseWithContext { .. } => DATABASE_ERROR@,
            AppError::Internal(_) => INTERNAL_ERROR@,
            AppError::Config(_) => CONFIG_ERROR@,
            AppError::Storage(_) => STORAGE_ERROR@,
        }
    }

    /// The text that the caller is shown. Failures of the caller's own
    /// making carry their detail; failures inside the system show a fixed
    /// text, whatever operation, table, message or ids they carry.
    pub open spec fn client_message(&self) -> Seq<char> {
        match self {
            AppError::NotFound(msg) => msg@,
            AppError::Unauthorized(msg) => msg@,
            AppError::Forbidden => "Forbidden"@,
            AppError::CsrfViolation => "CSRF validation failed"@,
            AppError::InvalidOrigin => "Invalid origin"@,
            AppError::BadRequest(msg) => msg@,
            AppError::Validation(msg) => msg@,
            AppError::OAuthError(msg) => msg@,
            AppError::SessionExpired => "Session has expired"@,
            AppError::Database(_) => "Database error"@,
            AppError::DatabaseWithContext { .. } => "Database error"@,
            AppError::Internal(_) => "Internal server error"@,
            AppError::Config(_) => "Configuration error"@,
            AppError::Storage(_) => "Storage error"@,
        }
    }

    /// The failure written out in full, for logs.
    pub open spec fn text(&self) -> Seq<char> {
        match self {
            AppError::NotFound(msg) => "Not found: "@ + msg@,
            AppError::Unauthorized(msg) => "Unauthorized: "@ + msg@,
            AppError::Forbidden => "Forbidden"@,
            AppError::CsrfViolation => "CSRF violation"@,
            AppError::InvalidOrigin => "Invalid origin"@,
            AppError::BadRequest(msg) => "Bad request: "@ + msg@,
            AppError::Validation(msg) => "Validation error: "@ + msg@,
            AppError::OAuthError(msg) => "OAuth error: "@ + msg@,
            AppError::SessionExpired => "Session expired"@,
            AppError::Database(msg) => "Database error: "@ + msg@,
            AppError::DatabaseWithContext { operation, table, message, .. } => "Database error in "@
                + operation@ + " on "@ + table@ + ": "@ + message@,
            AppError::Internal(msg) => "Internal error: "@ + msg@,
            AppError::Config(msg) => "Configuration error: "@ + msg@,
            AppError::Storage(msg) => "Storage error: "@ + msg@,
        }
    }

    /// Whether the failure lies inside the system, so that its detail is
    /// kept from the caller.
    pub open spec fn is_internal(&self) -> bool {
        self.status() == 500
    }

    /// The status code and the body of the answer that reports this failure.
    pub fn into_response(self) -> (r: (u16, ErrorResponse))
        ensures
            r.0 == self.status(),
            r.1.error@ == self.error_type(),
            r.1.message@ == self.client_message(),
            r.1.code is None,
    {
        let (status, error_type, message): (u16, &'static str, String) = match &self {
            AppError::NotFound(msg) => (404, NOT_FOUND, msg.clone()),
            AppError::Unauthorized(msg) => (401, UNAUTHORIZED, msg.clone()),
            AppError::Forbidden => (403, FORBIDDEN, String::from_str("Forbidden")),
            AppError::CsrfViolation => (
                403,
                CSRF_VIOLATION,
                String::from_str("CSRF validation failed"),
            ),
            AppError::InvalidOrigin => (403, INVALID_ORIGIN, String::from_str("Invalid origin")),
            AppError::BadRequest(msg) => (400, BAD_REQUEST, msg.clone()),
            AppError::Validation(msg) => (422, VALIDATION_ERROR, msg.clone()),
            AppError::OAuthError(msg) => (400, OAUTH_ERROR, msg.clone()),
            AppError::SessionExpired => (
                401,
                SESSION_EXPIRED,
                String::from_str("Session has expired"),
            ),
            AppError::Database(_) => (500, DATABASE_ERROR, String::from_str("Database error")),
            AppError::DatabaseWithContext { .. } => (
                500,
                DATABASE_ERROR,
                String::from_str("Database error"),
            ),
            AppError::Internal(_) => (500, INTERNAL_ERROR, String::from_str("Internal server error")),
            AppError::Config(_) => (500, CONFIG_ERROR, String::from_str("Configuration error")),
            AppError::Storage(_) => (500, STORAGE_ERROR, String::from_str("Storage error")),
        };
        let body = ErrorResponse { error: String::from_str(error_type), message, code: None };
        (status, body)
    }

    /// The failure written out in full.
    pub fn to_text(&self) -> (r: String)
        ensures
            r@ == self.text(),
    {
        match self {
            AppError::NotFound(msg) => String::from_str("Not found: ").concat(msg.as_str()),
            AppError::Unauthorized(msg) => String::from_str("Unauthorized: ").concat(msg.as_str()),
            AppError::Forbidden => String::from_str("Forbidden"),
            AppError::CsrfViolation => String::from_str("CSRF violation"),
            AppError::InvalidOrigin => String::from_str("Invalid origin"),
            AppError::BadRequest(msg) => String::from_str("Bad request: ").concat(msg.as_str()),
            AppError::Validation(msg) => String::from_str("Validation error: ").concat(
                msg.as_str(),
            ),
            AppError::OAuthError(msg) => String::from_str("OAuth error: ").concat(msg.as_str()),
            AppError::SessionExpired => String::from_str("Session expired"),
            AppError::Database(msg) => String::from_str("Database error: ").concat(msg.as_str()),
            AppError::DatabaseWithContext { operation, table, message, .. } => String::from_str(
                "Database error in ",
            ).concat(operation.as_str()).concat(" on ").concat(table.as_str()).concat(": ").concat(
                message.as_str(),
            ),
            AppError::Internal(msg) => String::from_str("Internal error: ").concat(msg.as_str()),
            AppError::Config(msg) => String::from_str("Configuration error: ").concat(
                msg.as_str(),
            ),
            AppError::Storage(msg) => String::from_str("Storage error: ").concat(msg.as_str()),
        }
    }

    pub fn not_found(msg: &str) -> (r: AppError)
        ensures
            r matches AppError::NotFound(m) && m@ == msg@,
    {
        AppError::NotFound(String::from_str(msg))
    }

    pub fn unauthorized(msg: &str) -> (r: AppError)
        ensures
            r matches AppError::Unauthorized(m) && m@ == msg@,
    {
        AppError::Unauthorized(String::from_str(msg))
    }

    pub fn forbidden() -> (r: AppError)
        ensures
            r == AppError::Forbidden,
    {
        AppError::Forbidden
    }

    pub fn bad_request(msg: &str) -> (r: AppError)
        ensures
            r matches AppError::BadRequest(m) && m@ == msg@,
    {
        AppError::BadRequest(String::from_str(msg))
    }

    pub fn validation(msg: &str) -> (r: AppError)
        ensures
            r matches AppError::Validation(m) && m@ == msg@,
    {
        AppError::Validation(String::from_str(msg))
    }

    pub fn oauth_error(msg: &str) -> (r: AppError)
        ensures
            r matches AppError::OAuthError(m) && m@ == msg@,
    {
        AppError::OAuthError(String::from_str(msg))
    }

    pub fn internal(msg: &str) -> (r: AppError)
        ensures
            r matches AppError::Internal(m) && m@ == msg@,
    {
        AppError::Internal(String::from_str(msg))
    }

    /// A database failure without context.
    pub fn database(msg: &str) -> (r: AppError)
        ensures
            r matches AppError::Database(m) && m@ == msg@,
    {
        AppError::Database(String::from_str(msg))
    }

    /// A database failure with the operation, the table and the user.
    pub fn database_with_context(
        operation: &str,
        table: &str,
        message: &str,
        user_id: Option<u128>,
    ) -> (r: AppError)
        ensures
            r matches AppError::DatabaseWithContext {
                operation: o,
                table: t,
                message: m,
                user_id: u,
                entity_id: e,
            } && o@ == operation@ && t@ == table@ && m@ == message@ && u == user_id && e is None,
    {
        AppError::DatabaseWithContext {
            operation: String::from_str(operation),
            table: String::from_str(table),
            message: String::from_str(message),
            user_id,
            entity_id: None,
        }
    }

    /// A database failure with the operation, the table, the user and the
    /// entity.
    pub fn database_with_entity(
        operation: &str,
        table: &str,
        message: &str,
        user_id: Option<u128>,
        entity_id: Option<u128>,
    ) -> (r: AppError)
        ensures
            r matches AppError::DatabaseWithContext {
                operation: o,
                table: t,
                message: m,
                user_id: u,
                entity_id: e,
            } && o@ == operation@ && t@ == table@ && m@ == message@ && u == user_id && e
                == entity_id,
    {
        AppError::DatabaseWithContext {
            operation: String::from_str(operation),
            table: String::from_str(table),
            message: String::from_str(message),
            user_id,
            entity_id,
        }
    }

    pub fn config(msg: &str) -> (r: AppError)
        ensures
            r matches AppError::Config(m) && m@ == msg@,
    {
        AppError::Config(String::from_str(msg))
    }

    pub fn storage(msg: &str) -> (r: AppError)
        ensures
            r matches AppError::Storage(m) && m@ == msg@,
    {
        AppError::Storage(String::from_str(msg))
    }
}

/// Both failures lie inside the system and are of the same kind: both
/// from the database, whether with context or without, or both internal,
/// both of the configuration, or both of the storage.
pub open spec fn same_internal_kind(e: AppError, f: AppError) -> bool {
    match (e, f) {
        (AppError::Database(_), AppError::Database(_)) => true,
        (AppError::Database(_), AppError::DatabaseWithContext { .. }) => true,
        (AppError::DatabaseWithContext { .. }, AppError::Database(_)) => true,
        (AppError::DatabaseWithContext { .. }, AppError::DatabaseWithContext { .. }) => true,
        (AppError::Internal(_), AppError::Internal(_)) => true,
        (AppError::Config(_), AppError::Config(_)) => true,
        (AppError::Storage(_), AppError::Storage(_)) => true,
        _ => false,
    }
}

/// Of a failure inside the system the caller learns the kind and nothing
/// else: the operation, the table, the message and the ids that the failure
/// carries never reach the answer. Two such failures of one kind are
/// answered alike, whatever they carry.
pub proof fn lemma_internal_detail_is_kept(e: AppError, f: AppError)
    requires
        same_internal_kind(e, f),
    ensures
        e.is_internal(),
        f.is_internal(),
        e.status() == f.status(),
        e.error_type() == f.error_type(),
        e.client_message() == f.client_message(),
{
}

} // verus!
