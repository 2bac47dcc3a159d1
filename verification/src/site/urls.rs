//! URLs: hiding, redirecting and protecting URI paths.
use vstd::prelude::*;

use crate::configuration::protection::{authenticate, credentials_are, credentials_match, realm_text, spec_authenticate, spec_credentials_match};
use crate::configuration::uri::spec_has_trailing_slashes;
use crate::headers::{authorization_basic, credentials_view, request_basic_credentials};
use crate::pattern::{regex_compiles, regex_expansion, regex_is_match, Pattern};
use crate::status::MOVED_PERMANENTLY;
use crate::text::{chars_of, ends_with_exec, slice_chars, string_of, trim_end_len};
use crate::util::constants::PATH_SEPARATOR;

verus! {

// ----------------------------------------------------------------------------------------
// Protect
// ----------------------------------------------------------------------------------------

/// Protection of the URI paths that a regex matches, by basic authentication.
#[derive(Debug)]
pub struct Protect {
    /// Regex (required by the configuration).
    pub regex: Option<Pattern>,
    /// Optional realm.
    ///
    /// Note that modern browsers do not display the realm.
    pub realm: Option<String>,
    /// Username.
    pub username: String,
    /// Password.
    pub password: String,
}

/// Whether a protection applies to a URI path: its regex matches.
pub open spec fn spec_protects(protect: Protect, uri_path: Seq<char>) -> bool {
    protect.regex matches Some(regex) && regex_is_match(regex.source(), uri_path)
}

impl Protect {
    /// True if protected.
    pub fn protect(&self, uri_path: &str) -> (protected: bool)
        ensures
            protected == spec_protects(*self, uri_path@),
    {
        match &self.regex {
            Some(regex) => regex.is_match(uri_path),
            None => false,
        }
    }

    /// Given a request's basic credentials: `None` when they are exactly the username and
    /// password, otherwise the `WWW-Authenticate` header value to answer with.
    pub fn authorized_credentials(&self, credentials: &Option<(String, String)>) -> (authenticate: Option<String>)
        ensures
            authenticate is None <==> spec_credentials_match(*credentials, self.username@, self.password@),
            authenticate matches Some(value) ==> value@ == spec_authenticate(realm_text(self.realm)),
    {
        if credentials_match(credentials, self.username.as_str(), self.password.as_str()) {
            return None;
        }
        let realm = match &self.realm {
            Some(realm) => Some(realm.as_str()),
            None => None,
        };
        Some(authenticate(realm))
    }

    /// If the request is authorized returns `None`; otherwise returns a `WWW-Authenticate`
    /// header value.
    pub fn authorized(&self, headers: &::axum::http::HeaderMap) -> (authenticate: Option<String>)
        ensures
            authenticate is None <==> credentials_are(request_basic_credentials(*headers), self.username@, self.password@),
            authenticate matches Some(value) ==> value@ == spec_authenticate(realm_text(self.realm)),
    {
        let credentials = authorization_basic(headers);
        assert(credentials_view(credentials) == request_basic_credentials(*headers));
        self.authorized_credentials(&credentials)
    }
}

impl Default for Protect {
    fn default() -> (protect: Self)
        ensures
            protect.regex is None,
            protect.realm is None,
            protect.username@.len() == 0,
            protect.password@.len() == 0,
    {
        Protect { regex: None, realm: None, username: String::new(), password: String::new() }
    }
}

// ----------------------------------------------------------------------------------------
// Redirect
// ----------------------------------------------------------------------------------------

/// Redirect of the URI paths that a regex matches, with a status code.
#[derive(Debug)]
pub struct Redirect {
    /// Regex (required by the configuration).
    pub regex: Option<Pattern>,
    /// Expand to (with the regex's captures).
    pub expand_to: String,
    /// Redirect status code. Defaults to 301 (Moved Permanently).
    pub status_code: u16,
}

/// Where a redirect sends a URI path, and with which status code.
pub open spec fn spec_site_redirect(redirect: Redirect, uri_path: Seq<char>) -> Option<(Seq<char>, u16)> {
    match redirect.regex {
        Some(regex) => if regex_is_match(regex.source(), uri_path) {
            Some((regex_expansion(regex.source(), uri_path, redirect.expand_to@), redirect.status_code))
        } else {
            None
        },
        None => None,
    }
}

impl Redirect {
    /// If the URI path is redirected returns the redirected URI path and the status code.
    pub fn redirect(&self, uri_path: &str) -> (redirected: Option<(String, u16)>)
        ensures
            redirected is Some <==> spec_site_redirect(*self, uri_path@) is Some,
            redirected matches Some((to, code)) ==> spec_site_redirect(*self, uri_path@) == Some((to@, code)),
    {
        match &self.regex {
            Some(regex) => match regex.expand(uri_path, self.expand_to.as_str()) {
                Some(to) => Some((to, self.status_code)),
                None => None,
            },
            None => None,
        }
    }
}

impl Default for Redirect {
    fn default() -> (redirect: Self)
        ensures
            redirect.regex is None,
            redirect.expand_to@.len() == 0,
            redirect.status_code == MOVED_PERMANENTLY,
    {
        Redirect { regex: None, expand_to: String::new(), status_code: MOVED_PERMANENTLY }
    }
}

// ----------------------------------------------------------------------------------------
// UrlsConfiguration
// ----------------------------------------------------------------------------------------

/// URLs configuration.
#[derive(Debug)]
pub struct UrlsConfiguration {
    /// Hide.
    pub hide: Vec<Pattern>,
    /// Redirect trailing slashes.
    pub redirect_trailing_slashes: bool,
    /// Redirect.
    pub redirect: Vec<Redirect>,
    /// Protect.
    pub protect: Vec<Protect>,
}

/// Where the first redirect that applies sends the URI path.
pub open spec fn spec_first_site_redirect(redirects: Seq<Redirect>, uri_path: Seq<char>) -> Option<(Seq<char>, u16)>
    decreases redirects.len(),
{
    if redirects.len() == 0 {
        None
    } else {
        match spec_site_redirect(redirects[0], uri_path) {
            Some(to) => Some(to),
            None => spec_first_site_redirect(redirects.drop_first(), uri_path),
        }
    }
}

/// Where a URI path is redirected: without its trailing slashes (301) if those are
/// redirected, else by the first redirect that applies.
pub open spec fn spec_urls_redirect(urls: UrlsConfiguration, uri_path: Seq<char>) -> Option<(Seq<char>, u16)> {
    match spec_has_trailing_slashes(urls.redirect_trailing_slashes, uri_path) {
        Some(trimmed) => Some((trimmed, MOVED_PERMANENTLY)),
        None => spec_first_site_redirect(urls.redirect@, uri_path),
    }
}

/// The index of the first protection that applies to a URI path.
pub open spec fn spec_first_protect(protect: Seq<Protect>, uri_path: Seq<char>) -> Option<int> {
    if exists|i: int| 0 <= i < protect.len() && spec_protects(#[trigger] protect[i], uri_path) {
        Some(
            choose|i: int|
                0 <= i < protect.len() && spec_protects(#[trigger] protect[i], uri_path) && forall|j: int|
                    0 <= j < i ==> !spec_protects(#[trigger] protect[j], uri_path),
        )
    } else {
        None
    }
}

impl UrlsConfiguration {
    /// If the URI path is redirected returns the redirected URI path and status code.
    pub fn redirect(&self, uri_path: &str) -> (redirected: Option<(String, u16)>)
        ensures
            redirected is Some <==> spec_urls_redirect(*self, uri_path@) is Some,
            redirected matches Some((to, code)) ==> spec_urls_redirect(*self, uri_path@) == Some((to@, code)),
    {
        match self.has_trailing_slashes(uri_path) {
            Some(trimmed) => Some((trimmed, MOVED_PERMANENTLY)),
            None => {
                let mut i: usize = 0;
                assert(self.redirect@.subrange(0, self.redirect@.len() as int) =~= self.redirect@);
                while i < self.redirect.len()
                    invariant
                        i <= self.redirect@.len(),
                        spec_has_trailing_slashes(self.redirect_trailing_slashes, uri_path@) is None,
                        spec_first_site_redirect(self.redirect@, uri_path@) == spec_first_site_redirect(
                            self.redirect@.subrange(i as int, self.redirect@.len() as int),
                            uri_path@,
                        ),
                    decreases self.redirect@.len() - i,
                {
                    let ghost rest = self.redirect@.subrange(i as int, self.redirect@.len() as int);
                    assert(rest.drop_first() =~= self.redirect@.subrange(i + 1, self.redirect@.len() as int));
                    assert(rest[0] == self.redirect@[i as int]);
                    match self.redirect[i].redirect(uri_path) {
                        Some(to) => {
                            return Some(to);
                        },
                        None => {},
                    }
                    i = i + 1;
                }
                None
            },
        }
    }

    /// If `redirect_trailing_slashes` is true and the URI path has trailing slashes returns it
    /// without them.
    pub fn has_trailing_slashes(&self, uri_path: &str) -> (trimmed: Option<String>)
        ensures
            trimmed is Some <==> spec_has_trailing_slashes(self.redirect_trailing_slashes, uri_path@) is Some,
            trimmed matches Some(t) ==> spec_has_trailing_slashes(self.redirect_trailing_slashes, uri_path@) == Some(t@),
    {
        let v = chars_of(uri_path);
        let slash = [PATH_SEPARATOR];
        assert(slash@ =~= seq![PATH_SEPARATOR]);
        if self.redirect_trailing_slashes && v.len() > 1 && ends_with_exec(&v, &slash) {
            let n = trim_end_len(&v, PATH_SEPARATOR);
            Some(string_of(&slice_chars(&v, 0, n)))
        } else {
            None
        }
    }

    /// If the URI path is protected returns the first [Protect] that applies.
    pub fn protect(&self, uri_path: &str) -> (protect: Option<&Protect>)
        ensures
            protect is Some <==> spec_first_protect(self.protect@, uri_path@) is Some,
            protect matches Some(p) ==> *p == self.protect@[spec_first_protect(self.protect@, uri_path@)->0],
    {
        let mut i: usize = 0;
        while i < self.protect.len()
            invariant
                i <= self.protect@.len(),
                forall|j: int| 0 <= j < i ==> !spec_protects(#[trigger] self.protect@[j], uri_path@),
            decreases self.protect@.len() - i,
        {
            if self.protect[i].protect(uri_path) {
                proof {
                    let k = i as int;
                    assert(spec_protects(self.protect@[k], uri_path@));
                    let c = spec_first_protect(self.protect@, uri_path@)->0;
                    assert(0 <= c < self.protect@.len() && spec_protects(self.protect@[c], uri_path@));
                    if c < k {
                    } else if c > k {
                    }
                    assert(c == k);
                }
                return Some(&self.protect[i]);
            }
            i = i + 1;
        }
        None
    }
}

/// The regex that hides HTML files by default.
pub const HIDE_HTML: &'static str = "\\.html$";

impl Default for UrlsConfiguration {
    /// Hides HTML files and redirects trailing slashes.
    fn default() -> (urls: Self)
        ensures
            regex_compiles(HIDE_HTML@) ==> urls.hide@.len() == 1 && urls.hide@[0].source() == HIDE_HTML@,
            urls.redirect_trailing_slashes,
            urls.redirect@.len() == 0,
            urls.protect@.len() == 0,
    {
        let mut hidden: Vec<Pattern> = Vec::new();
        match Pattern::new(HIDE_HTML) {
            Ok(pattern) => {
                hidden.push(pattern);
            },
            Err(_) => {},
        }
        UrlsConfiguration { hide: hidden, redirect_trailing_slashes: true, redirect: Vec::new(), protect: Vec::new() }
    }
}

} // verus!
