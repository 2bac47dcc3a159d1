//! Basic authorization of every request.
use vstd::prelude::*;

use crate::configuration::protection::{authenticate, credentials_are, credentials_match, spec_authenticate, spec_credentials_match};
use crate::headers::{authorization_basic, credentials_view, request_basic_credentials};

verus! {

/// Basic authorization middleware.
#[derive(Debug)]
pub struct BasicAuthorizationMiddleware {
    /// Realm.
    pub realm: String,
    /// Username.
    pub username: String,
    /// Password.
    pub password: String,
}

impl BasicAuthorizationMiddleware {
    /// Constructor.
    pub fn new(realm: String, username: String, password: String) -> (middleware: Self)
        ensures
            middleware.realm == realm,
            middleware.username == username,
            middleware.password == password,
    {
        BasicAuthorizationMiddleware { realm, username, password }
    }

    /// Authorize given the basic credentials of a request: `Ok` when they are exactly the
    /// username and password, else the `WWW-Authenticate` header value of the 401 answer.
    pub fn authorize_credentials(&self, credentials: &Option<(String, String)>) -> (authorized: Result<(), String>)
        ensures
            authorized is Ok <==> spec_credentials_match(*credentials, self.username@, self.password@),
            authorized matches Err(value) ==> value@ == spec_authenticate(Some(self.realm@)),
    {
        if credentials_match(credentials, self.username.as_str(), self.password.as_str()) {
            Ok(())
        } else {
            Err(authenticate(Some(self.realm.as_str())))
        }
    }

    /// Authorize a request by its headers.
    pub fn authorize(&self, headers: &::axum::http::HeaderMap) -> (authorized: Result<(), String>)
        ensures
            authorized is Ok <==> credentials_are(request_basic_credentials(*headers), self.username@, self.password@),
            authorized matches Err(value) ==> value@ == spec_authenticate(Some(self.realm@)),
    {
        let credentials = authorization_basic(headers);
        assert(credentials_view(credentials) == request_basic_credentials(*headers));
        self.authorize_credentials(&credentials)
    }
}

} // verus!
