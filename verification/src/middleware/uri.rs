//! Rewriting URI paths.
//!
//! * Redirects trailing slashes (301)
//! * Hides paths (404) that end with ".html", ".html.md", or other configured suffixes
//! * Rewrites to ".html" or ".r.*" files if they exist
//! * Otherwise if it's a directory rewrites to its "index.html" or "index.r.*" if they exist
use vstd::prelude::*;

use crate::configuration::constants::{HTML_SUFFIX, INDEX, SEPARATOR_AND_INDEX};
use crate::configuration::protection::{realm_text, spec_authenticate, spec_credentials_match};
use crate::configuration::server::{spec_is_hidden, ServerConfiguration};
use crate::configuration::uri::{spec_first_protection, spec_uri_redirect};
use crate::headers::{authorization_basic, credentials_view, request_basic_credentials};
use crate::text::{trim_end_char, trim_end_matches};
use crate::util::constants::PATH_SEPARATOR;
use crate::util::file_path::{path_join, spec_path_join};

verus! {

/// Middleware that rewrites URI paths.
#[derive(Debug)]
pub struct UriMiddleware {
    /// Configuration.
    pub configuration: ServerConfiguration,
}

/// What is done with a request before its URI path is rewritten.
#[derive(Debug)]
pub enum UriCheck {
    /// Redirect (301) to this URI path.
    Redirect(String),
    /// Hidden (404).
    NotFound,
    /// Protected and not authorized (401), with the `WWW-Authenticate` header value.
    Unauthorized(String),
    /// Go on to rewriting.
    Pass,
}

/// Whether the check is the one owed to a request for the URI path with the credentials: a
/// redirect first, then hiding, then the first protection that applies.
pub open spec fn spec_uri_check(
    configuration: ServerConfiguration,
    uri_path: Seq<char>,
    credentials: Option<(String, String)>,
    check: UriCheck,
) -> bool {
    match spec_uri_redirect(configuration.uri, uri_path) {
        Some(to) => check matches UriCheck::Redirect(r) && r@ == to,
        None => if spec_is_hidden(configuration, uri_path) {
            check is NotFound
        } else {
            match spec_first_protection(configuration.uri.protect@, uri_path) {
                Some(i) => {
                    let protection = configuration.uri.protect@[i];
                    if spec_credentials_match(credentials, protection.username@, protection.password@) {
                        check is Pass
                    } else {
                        check matches UriCheck::Unauthorized(value) && value@ == spec_authenticate(
                            realm_text(protection.realm),
                        )
                    }
                },
                None => check is Pass,
            }
        },
    }
}

/// The asset path and URI path after switching a directory to its index.
pub open spec fn spec_index_rewrite(uri_path: Seq<char>, asset_path: Seq<char>, is_directory: bool) -> (Seq<char>, Seq<char>) {
    if is_directory {
        (spec_path_join(asset_path, "index"@), trim_end_char(uri_path, PATH_SEPARATOR) + "/index"@)
    } else {
        (asset_path, uri_path)
    }
}

/// The rewritten URI path: "{path}.html" when that file exists, else the rendered page's URI
/// path if one was found.
pub open spec fn spec_rewrite(path: Seq<char>, html_exists: bool, rendered_uri_path: Option<Seq<char>>) -> Option<Seq<char>> {
    if html_exists {
        Some(path + ".html"@)
    } else {
        rendered_uri_path
    }
}

impl UriMiddleware {
    /// Constructor.
    pub fn new(configuration: ServerConfiguration) -> (middleware: Self)
        ensures
            middleware.configuration == configuration,
    {
        UriMiddleware { configuration }
    }

    /// Redirect, hide or protect a request for the URI path, given its basic credentials.
    pub fn check(&self, uri_path: &str, credentials: &Option<(String, String)>) -> (check: UriCheck)
        ensures
            spec_uri_check(self.configuration, uri_path@, *credentials, check),
    {
        match self.configuration.uri.redirect(uri_path) {
            Some(to) => return UriCheck::Redirect(to),
            None => {},
        }
        if self.configuration.is_hidden(uri_path) {
            return UriCheck::NotFound;
        }
        match self.configuration.uri.protection(uri_path) {
            Some(protection) => match protection.authorize_credentials(credentials) {
                Ok(()) => UriCheck::Pass,
                Err(value) => UriCheck::Unauthorized(value),
            },
            None => UriCheck::Pass,
        }
    }

    /// Redirect, hide or protect a request for the URI path, given its headers.
    pub fn check_request(&self, uri_path: &str, headers: &::axum::http::HeaderMap) -> (check: UriCheck)
        ensures
            exists|credentials: Option<(String, String)>|
                credentials_view(credentials) == request_basic_credentials(*headers) && spec_uri_check(
                    self.configuration,
                    uri_path@,
                    credentials,
                    check,
                ),
    {
        let credentials = authorization_basic(headers);
        assert(credentials_view(credentials) == request_basic_credentials(*headers));
        self.check(uri_path, &credentials)
    }

    /// For a directory, the asset path of its index file and the URI path of its index;
    /// otherwise both unchanged.
    pub fn index_rewrite(uri_path: &str, asset_path: &str, is_directory: bool) -> (paths: (String, String))
        ensures
            (paths.0@, paths.1@) == spec_index_rewrite(uri_path@, asset_path@, is_directory),
    {
        if is_directory {
            proof {
                reveal_strlit("index");
                reveal_strlit("/index");
            }
            let asset = path_join(asset_path, INDEX);
            let path = trim_end_matches(uri_path, PATH_SEPARATOR).concat(SEPARATOR_AND_INDEX);
            (asset, path)
        } else {
            (String::from_str(asset_path), String::from_str(uri_path))
        }
    }

    /// The HTML file looked for: the asset path with ".html" appended.
    pub fn html_file(asset_path: &str) -> (file: String)
        ensures
            file@ == asset_path@ + ".html"@,
    {
        String::from_str(asset_path).concat(HTML_SUFFIX)
    }

    /// The rewritten URI path, if any.
    pub fn rewrite(path: &str, html_exists: bool, rendered_uri_path: Option<String>) -> (new_path: Option<String>)
        ensures
            new_path is Some <==> spec_rewrite(path@, html_exists, match rendered_uri_path {
                Some(r) => Some(r@),
                None => None,
            }) is Some,
            new_path matches Some(n) ==> spec_rewrite(path@, html_exists, match rendered_uri_path {
                Some(r) => Some(r@),
                None => None,
            }) == Some(n@),
    {
        if html_exists {
            proof {
                reveal_strlit(".html");
            }
            Some(String::from_str(path).concat(HTML_SUFFIX))
        } else {
            rendered_uri_path
        }
    }
}

} // verus!
