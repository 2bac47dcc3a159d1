//! Catching deferred responses and non-success status codes.
use vstd::prelude::*;

use crate::configuration::constants::HTML_SUFFIX;
use crate::middleware::status::spec_status_page;
use crate::status::{INTERNAL_SERVER_ERROR, NOT_FOUND};
use crate::util::decimal::{decimal, to_decimal};
use crate::util::file_path::{path_join, spec_path_join};

verus! {

/// A response that earlier middleware left for this one to give.
#[derive(Debug)]
pub enum DeferredResponse {
    /// Hide: not found.
    Hide,
    /// Ask for authentication, with the `WWW-Authenticate` header value.
    Authenticate(String),
    /// Redirect to a URI path with a status code.
    RedirectTo(String, u16),
    /// An internal error, with its message.
    Error(String),
}

/// What to do with a request before it is handled.
#[derive(Debug)]
pub enum CatchAction {
    /// Answer 401 with the `WWW-Authenticate` header value.
    Authenticate(String),
    /// Answer with a redirect to the URI path, with the status code.
    RedirectTo(String, u16),
    /// Answer with the status page at the path if it exists (else handle the request).
    StatusPage(u16, String),
    /// Handle the request.
    Next,
}

/// Middleware that "catches" deferred responses, which it finally gives, and non-success
/// status codes, for which it answers with a file if one exists.
#[derive(Debug)]
pub struct CatchMiddleware {
    /// Assets path.
    pub assets_path: String,
}

/// The file that answers a status code: "{status}.html" under the assets path.
pub open spec fn spec_response_file(assets_path: Seq<char>, status: u16) -> Seq<char> {
    spec_path_join(assets_path, decimal(status as nat) + ".html"@)
}

impl CatchMiddleware {
    /// Constructor.
    pub fn new(assets_path: String) -> (middleware: Self)
        ensures
            middleware.assets_path == assets_path,
    {
        CatchMiddleware { assets_path }
    }

    /// The file that answers a status code (if it exists).
    pub fn response(&self, status: u16) -> (file: String)
        ensures
            file@ == spec_response_file(self.assets_path@, status),
    {
        proof {
            reveal_strlit(".html");
        }
        let name = to_decimal(status as u64).concat(HTML_SUFFIX);
        path_join(self.assets_path.as_str(), name.as_str())
    }

    /// What to do before a request is handled, given what earlier middleware deferred.
    pub fn before(&self, deferred: &Option<DeferredResponse>) -> (action: CatchAction)
        ensures
            match deferred {
                Some(DeferredResponse::Hide) => action matches CatchAction::StatusPage(status, file) && status == NOT_FOUND
                    && file@ == spec_response_file(self.assets_path@, NOT_FOUND),
                Some(DeferredResponse::Authenticate(value)) => action matches CatchAction::Authenticate(v) && v@ == value@,
                Some(DeferredResponse::RedirectTo(uri_path, code)) => action matches CatchAction::RedirectTo(u, c) && u@ == uri_path@
                    && c == code,
                Some(DeferredResponse::Error(_)) => action matches CatchAction::StatusPage(status, file) && status
                    == INTERNAL_SERVER_ERROR && file@ == spec_response_file(self.assets_path@, INTERNAL_SERVER_ERROR),
                None => action is Next,
            },
    {
        match deferred {
            Some(DeferredResponse::Hide) => CatchAction::StatusPage(NOT_FOUND, self.response(NOT_FOUND)),
            Some(DeferredResponse::Authenticate(value)) => CatchAction::Authenticate(String::from_str(value.as_str())),
            Some(DeferredResponse::RedirectTo(uri_path, code)) => CatchAction::RedirectTo(String::from_str(uri_path.as_str()), *code),
            Some(DeferredResponse::Error(_)) => CatchAction::StatusPage(INTERNAL_SERVER_ERROR, self.response(INTERNAL_SERVER_ERROR)),
            None => CatchAction::Next,
        }
    }

    /// After a request was handled: the file to answer its status code with (if it exists),
    /// for a non-success status.
    pub fn after(&self, status: u16) -> (file: Option<String>)
        ensures
            file is Some <==> spec_status_page(self.assets_path@, status) is Some,
            file matches Some(f) ==> spec_status_page(self.assets_path@, status) == Some(f@),
    {
        if 200 <= status && status < 300 {
            None
        } else {
            Some(self.response(status))
        }
    }
}

} // verus!
