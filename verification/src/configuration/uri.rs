//! URI configuration: redirects, hidden suffixes and protection.
use vstd::prelude::*;

use crate::pattern::regex_is_match;
use crate::text::{chars_of, ends_with, ends_with_exec, lemma_trim_end_char, slice_chars, string_of, trim_end_char, trim_end_len};
use crate::util::constants::PATH_SEPARATOR;
use super::constants::{CREDENCE_SUFFIX, HTML_SUFFIX};
use super::protection::Protection;
use super::redirect::{spec_redirect, Redirect};

verus! {

/// URI configuration.
#[derive(Debug)]
pub struct UriConfiguration {
    /// Hide suffixes.
    pub hide_suffixes: Vec<String>,
    /// Redirect trailing slashes.
    pub redirect_trailing_slashes: bool,
    /// Redirect.
    pub redirect: Vec<Redirect>,
    /// Protect.
    pub protect: Vec<Protection>,
}

/// The URI path without its trailing slashes, when trailing slashes are redirected and the
/// path is longer than one character and ends with a slash.
pub open spec fn spec_has_trailing_slashes(redirect_trailing_slashes: bool, uri_path: Seq<char>) -> Option<Seq<char>> {
    if redirect_trailing_slashes && uri_path.len() > 1 && ends_with(uri_path, seq![PATH_SEPARATOR]) {
        Some(trim_end_char(uri_path, PATH_SEPARATOR))
    } else {
        None
    }
}

/// Where the first redirect that applies sends the URI path.
pub open spec fn spec_first_redirect(redirects: Seq<Redirect>, uri_path: Seq<char>) -> Option<Seq<char>>
    decreases redirects.len(),
{
    if redirects.len() == 0 {
        None
    } else {
        match spec_redirect(redirects[0], uri_path) {
            Some(to) => Some(to),
            None => spec_first_redirect(redirects.drop_first(), uri_path),
        }
    }
}

/// Where a URI path is redirected: without its trailing slashes if those are redirected, else
/// by the first redirect that applies.
pub open spec fn spec_uri_redirect(configuration: UriConfiguration, uri_path: Seq<char>) -> Option<Seq<char>> {
    match spec_has_trailing_slashes(configuration.redirect_trailing_slashes, uri_path) {
        Some(trimmed) => Some(trimmed),
        None => spec_first_redirect(configuration.redirect@, uri_path),
    }
}

/// Whether a protection applies to a URI path.
pub open spec fn spec_protected(protection: Protection, uri_path: Seq<char>) -> bool {
    protection.regex matches Some(regex) && regex_is_match(regex.source(), uri_path)
}

/// The index of the first protection that applies to a URI path.
pub open spec fn spec_first_protection(protect: Seq<Protection>, uri_path: Seq<char>) -> Option<int> {
    if exists|i: int| 0 <= i < protect.len() && spec_protected(#[trigger] protect[i], uri_path) {
        Some(
            choose|i: int|
                0 <= i < protect.len() && spec_protected(#[trigger] protect[i], uri_path) && forall|j: int|
                    0 <= j < i ==> !spec_protected(#[trigger] protect[j], uri_path),
        )
    } else {
        None
    }
}

/// A URI path that was redirected for its trailing slashes is not redirected for them again:
/// the redirect settles in one step.
pub proof fn law_trailing_slash_redirect_settles(uri_path: Seq<char>)
    requires
        spec_has_trailing_slashes(true, uri_path) is Some,
    ensures
        spec_has_trailing_slashes(true, spec_has_trailing_slashes(true, uri_path)->0) is None,
{
    let trimmed = trim_end_char(uri_path, PATH_SEPARATOR);
    lemma_trim_end_char(uri_path, PATH_SEPARATOR);
    if trimmed.len() > 1 && ends_with(trimmed, seq![PATH_SEPARATOR]) {
        assert(trimmed.subrange(trimmed.len() - 1, trimmed.len() as int)[0] == trimmed.last());
    }
}

impl UriConfiguration {
    /// If the URI path is redirected returns the redirected URI path.
    pub fn redirect(&self, uri_path: &str) -> (redirected: Option<String>)
        ensures
            redirected is Some <==> spec_uri_redirect(*self, uri_path@) is Some,
            redirected matches Some(r) ==> spec_uri_redirect(*self, uri_path@) == Some(r@),
    {
        match self.has_trailing_slashes(uri_path) {
            Some(trimmed) => Some(trimmed),
            None => {
                let mut i: usize = 0;
                assert(self.redirect@.subrange(0, self.redirect@.len() as int) =~= self.redirect@);
                while i < self.redirect.len()
                    invariant
                        i <= self.redirect@.len(),
                        spec_has_trailing_slashes(self.redirect_trailing_slashes, uri_path@) is None,
                        spec_first_redirect(self.redirect@, uri_path@) == spec_first_redirect(
                            self.redirect@.subrange(i as int, self.redirect@.len() as int),
                            uri_path@,
                        ),
                    decreases self.redirect@.len() - i,
                {
                    let ghost rest = self.redirect@.subrange(i as int, self.redirect@.len() as int);
                    assert(rest.drop_first() =~= self.redirect@.subrange(i + 1, self.redirect@.len() as int));
                    assert(rest[0] == self.redirect@[i as int]);
                    match self.redirect[i].redirect(uri_path) {
                        Some(to) => {
                            return Some(to);
                        },
                        None => {},
                    }
                    i = i + 1;
                }
                None
            },
        }
    }

    /// If `redirect_trailing_slashes` is true and the URI path has trailing slashes returns it
    /// without them.
    pub fn has_trailing_slashes(&self, uri_path: &str) -> (trimmed: Option<String>)
        ensures
            trimmed is Some <==> spec_has_trailing_slashes(self.redirect_trailing_slashes, uri_path@) is Some,
            trimmed matches Some(t) ==> spec_has_trailing_slashes(self.redirect_trailing_slashes, uri_path@) == Some(t@),
    {
        let v = chars_of(uri_path);
        let slash = [PATH_SEPARATOR];
        assert(slash@ =~= seq![PATH_SEPARATOR]);
        if self.redirect_trailing_slashes && v.len() > 1 && ends_with_exec(&v, &slash) {
            let n = trim_end_len(&v, PATH_SEPARATOR);
            Some(string_of(&slice_chars(&v, 0, n)))
        } else {
            None
        }
    }

    /// If the URI path is protected returns the first [Protection] that applies.
    pub fn protection(&self, uri_path: &str) -> (protection: Option<&Protection>)
        ensures
            protection is Some <==> spec_first_protection(self.protect@, uri_path@) is Some,
            protection matches Some(p) ==> *p == self.protect@[spec_first_protection(self.protect@, uri_path@)->0],
    {
        let mut i: usize = 0;
        while i < self.protect.len()
            invariant
                i <= self.protect@.len(),
                forall|j: int| 0 <= j < i ==> !spec_protected(#[trigger] self.protect@[j], uri_path@),
            decreases self.protect@.len() - i,
        {
            if self.protect[i].protected(uri_path) {
                proof {
                    let k = i as int;
                    assert(spec_protected(self.protect@[k], uri_path@));
                    let c = spec_first_protection(self.protect@, uri_path@)->0;
                    assert(0 <= c < self.protect@.len() && spec_protected(self.protect@[c], uri_path@));
                    if c < k {
                    } else if c > k {
                    }
                    assert(c == k);
                }
                return Some(&self.protect[i]);
            }
            i = i + 1;
        }
        None
    }
}

impl UriConfiguration {
    /// The default URI configuration: hides ".html.md" and ".html", redirects trailing
    /// slashes, no redirects or protections.
    pub fn new() -> (configuration: Self)
        ensures
            configuration.hide_suffixes@.len() == 2,
            configuration.hide_suffixes@[0]@ == ".html.md"@,
            configuration.hide_suffixes@[1]@ == ".html"@,
            configuration.redirect_trailing_slashes,
            configuration.redirect@.len() == 0,
            configuration.protect@.len() == 0,
    {
        let mut hide_suffixes: Vec<String> = Vec::new();
        hide_suffixes.push(String::from_str(CREDENCE_SUFFIX));
        hide_suffixes.push(String::from_str(HTML_SUFFIX));
        UriConfiguration { hide_suffixes, redirect_trailing_slashes: true, redirect: Vec::new(), protect: Vec::new() }
    }
}

impl Default for UriConfiguration {
    fn default() -> (configuration: Self)
        ensures
            configuration.hide_suffixes@.len() == 2,
            configuration.hide_suffixes@[0]@ == ".html.md"@,
            configuration.hide_suffixes@[1]@ == ".html"@,
            configuration.redirect_trailing_slashes,
            configuration.redirect@.len() == 0,
            configuration.protect@.len() == 0,
    {
        UriConfiguration::new()
    }
}

} // verus!
