//! Protection of URI paths by basic authentication.
use vstd::prelude::*;

use crate::headers::{authorization_basic, credentials_view, request_basic_credentials};
use crate::pattern::{regex_is_match, Pattern};
use crate::text::str_eq;

verus! {

/// Protection.
#[derive(Debug)]
pub struct Protection {
    /// Regex.
    pub regex: Option<Pattern>,
    /// Optional realm.
    ///
    /// Note that modern browsers do not display the realm.
    pub realm: Option<String>,
    /// Username.
    pub username: String,
    /// Password.
    pub password: String,
}

/// The `WWW-Authenticate` header value asking for basic authentication in a realm, if any.
pub open spec fn spec_authenticate(realm: Option<Seq<char>>) -> Seq<char> {
    match realm {
        Some(realm) => "Basic realm=\""@ + realm + "\", charset=\"UTF-8\""@,
        None => "Basic charset=\"UTF-8\""@,
    }
}

/// Whether the credentials are exactly the expected username and password.
pub open spec fn spec_credentials_match(
    credentials: Option<(String, String)>,
    username: Seq<char>,
    password: Seq<char>,
) -> bool {
    credentials matches Some((u, p)) && u@ == username && p@ == password
}

/// Whether credentials, as plain values, are exactly the expected username and password.
pub open spec fn credentials_are(
    credentials: Option<(Seq<char>, Seq<char>)>,
    username: Seq<char>,
    password: Seq<char>,
) -> bool {
    credentials matches Some((u, p)) && u == username && p == password
}

/// The `WWW-Authenticate` header value asking for basic authentication.
pub fn authenticate(realm: Option<&str>) -> (value: String)
    ensures
        value@ == spec_authenticate(match realm {
            Some(r) => Some(r@),
            None => None,
        }),
{
    match realm {
        Some(realm) => String::from_str("Basic realm=\"").concat(realm).concat("\", charset=\"UTF-8\""),
        None => String::from_str("Basic charset=\"UTF-8\""),
    }
}

/// Whether the credentials are exactly the expected username and password.
pub fn credentials_match(credentials: &Option<(String, String)>, username: &str, password: &str) -> (matched: bool)
    ensures
        matched == spec_credentials_match(*credentials, username@, password@),
{
    match credentials {
        Some((u, p)) => str_eq(u.as_str(), username) && str_eq(p.as_str(), password),
        None => false,
    }
}

/// The realm's characters, if any.
pub open spec fn realm_text(realm: Option<String>) -> Option<Seq<char>> {
    match realm {
        Some(r) => Some(r@),
        None => None,
    }
}

impl Protection {
    /// True if protected: the regex matches the URI path.
    pub fn protected(&self, uri_path: &str) -> (protected: bool)
        ensures
            protected == (self.regex matches Some(regex) && regex_is_match(regex.source(), uri_path@)),
    {
        match &self.regex {
            Some(regex) => regex.is_match(uri_path),
            None => false,
        }
    }

    /// Authorize given the basic credentials of a request: `Ok` when they are exactly the
    /// username and password, else the `WWW-Authenticate` header value to answer with.
    pub fn authorize_credentials(&self, credentials: &Option<(String, String)>) -> (authorized: Result<(), String>)
        ensures
            authorized is Ok <==> spec_credentials_match(*credentials, self.username@, self.password@),
            authorized matches Err(value) ==> value@ == spec_authenticate(realm_text(self.realm)),
    {
        if credentials_match(credentials, self.username.as_str(), self.password.as_str()) {
            return Ok(());
        }
        let realm = match &self.realm {
            Some(realm) => Some(realm.as_str()),
            None => None,
        };
        Err(authenticate(realm))
    }

    /// Authorize a request by its headers (`Basic` authorization).
    pub fn authorize(&self, headers: &::axum::http::HeaderMap) -> (authorized: Result<(), String>)
        ensures
            authorized is Ok <==> credentials_are(request_basic_credentials(*headers), self.username@, self.password@),
            authorized matches Err(value) ==> value@ == spec_authenticate(realm_text(self.realm)),
    {
        let credentials = authorization_basic(headers);
        assert(credentials_view(credentials) == request_basic_credentials(*headers));
        self.authorize_credentials(&credentials)
    }
}

impl Default for Protection {
    fn default() -> (protection: Self)
        ensures
            protection.regex is None,
            protection.realm is None,
            protection.username@.len() == 0,
            protection.password@.len() == 0,
    {
        Protection { regex: None, realm: None, username: String::new(), password: String::new() }
    }
}

} // verus!
