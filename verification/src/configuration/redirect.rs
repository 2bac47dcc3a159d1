//! Redirects.
use vstd::prelude::*;

use crate::pattern::{regex_expansion, regex_is_match, Pattern};

verus! {

/// Redirect.
#[derive(Debug)]
pub struct Redirect {
    /// Regex.
    pub regex: Option<Pattern>,
    /// Expand to (with the regex's captures).
    pub to_: String,
}

/// Where a redirect sends a URI path: the expansion of its target with the captures of its
/// regex, when the regex matches.
pub open spec fn spec_redirect(redirect: Redirect, uri_path: Seq<char>) -> Option<Seq<char>> {
    match redirect.regex {
        Some(regex) => if regex_is_match(regex.source(), uri_path) {
            Some(regex_expansion(regex.source(), uri_path, redirect.to_@))
        } else {
            None
        },
        None => None,
    }
}

impl Redirect {
    /// If the URI is redirected returns the redirected URI.
    pub fn redirect(&self, uri_path: &str) -> (redirected: Option<String>)
        ensures
            redirected is Some <==> spec_redirect(*self, uri_path@) is Some,
            redirected matches Some(r) ==> spec_redirect(*self, uri_path@) == Some(r@),
    {
        match &self.regex {
            Some(regex) => regex.expand(uri_path, self.to_.as_str()),
            None => None,
        }
    }
}

impl Default for Redirect {
    fn default() -> (redirect: Self)
        ensures
            redirect.regex is None,
            redirect.to_@.len() == 0,
    {
        Redirect { regex: None, to_: String::new() }
    }
}

} // verus!
