//! HTTP status codes used by the server's decisions.
use vstd::prelude::*;

verus! {

/// 200 OK.
pub const OK: u16 = 200;

/// 301 Moved Permanently.
pub const MOVED_PERMANENTLY: u16 = 301;

/// 401 Unauthorized.
pub const UNAUTHORIZED: u16 = 401;

/// 404 Not Found.
pub const NOT_FOUND: u16 = 404;

/// 500 Internal Server Error.
pub const INTERNAL_SERVER_ERROR: u16 = 500;

/// Whether a status code is a success (2xx).
pub open spec fn is_success(status: u16) -> bool {
    200 <= status < 300
}

} // verus!
