//! The machine-readable tags of failures, as answers carry them.

use vstd::prelude::*;

verus! {

/// The thing asked for does not exist.
pub const NOT_FOUND: &'static str = "not_found";

/// The caller has to authenticate.
pub const UNAUTHORIZED: &'static str = "unauthorized";

/// The caller is known and may not do this.
pub const FORBIDDEN: &'static str = "forbidden";

/// The request failed the check against forged requests.
pub const CSRF_VIOLATION: &'static str = "csrf_violation";

/// The request came from an origin that is not allowed.
pub const INVALID_ORIGIN: &'static str = "invalid_origin";

/// The request is wrong in itself.
pub const BAD_REQUEST: &'static str = "bad_request";

/// A value in the request was refused.
pub const VALIDATION_ERROR: &'static str = "validation_error";

/// The provider of the login failed or refused.
pub const OAUTH_ERROR: &'static str = "oauth_error";

/// The session is over.
pub const SESSION_EXPIRED: &'static str = "session_expired";

/// The database failed.
pub const DATABASE_ERROR: &'static str = "database_error";

/// Something inside the system failed.
pub const INTERNAL_ERROR: &'static str = "internal_error";

/// The configuration is wrong.
pub const CONFIG_ERROR: &'static str = "config_error";

/// The object storage failed.
pub const STORAGE_ERROR: &'static str = "storage_error";

} // verus!
