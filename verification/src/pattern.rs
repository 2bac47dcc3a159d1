//! Regular expressions (the `regex` crate), remembered with their source.
use vstd::prelude::*;

verus! {

/// The compiled regular expression of the `regex` crate.
#[verifier::external_type_specification]
#[verifier::external_body]
pub struct ExRegex(regex::Regex);

/// Whether `regex::Regex::new` accepts the source.
pub uninterp spec fn regex_compiles(source: Seq<char>) -> bool;

/// What `regex::Regex::is_match` answers for the regex compiled from `source` on `text`.
pub uninterp spec fn regex_is_match(source: Seq<char>, text: Seq<char>) -> bool;

/// What `regex::Captures::expand` writes for `template` with the captures of the first match
/// of the regex compiled from `source` in `text`.
pub uninterp spec fn regex_expansion(source: Seq<char>, text: Seq<char>, template: Seq<char>) -> Seq<
    char,
>;

/// A regular expression together with the source it was compiled from.
///
/// The fields are private: a `Pattern` is only ever made by [Pattern::new], so its regex is
/// always the one compiled from its source.
#[derive(Debug)]
pub struct Pattern {
    source: String,
    regex: regex::Regex,
}

impl Pattern {
    /// The source of the regular expression.
    pub closed spec fn source(&self) -> Seq<char> {
        self.source@
    }

    /// Compiles a regular expression.
    ///
    /// Succeeds exactly when the source compiles; the error is the crate's message.
    pub fn new(source: &str) -> (pattern: Result<Pattern, String>)
        ensures
            pattern is Ok <==> regex_compiles(source@),
            pattern matches Ok(p) ==> p.source() == source@,
    {
        Self::compile(source)
    }

    /// Compiles a regular expression: `regex::Regex::new`.
    ///
    /// Succeeds exactly when the source compiles; the error is the crate's message.
    #[verifier::external_body]
    fn compile(source: &str) -> (pattern: Result<Pattern, String>)
        ensures
            pattern is Ok <==> regex_compiles(source@),
            pattern matches Ok(p) ==> p.source() == source@,
    {
        match regex::Regex::new(source) {
            Ok(regex) => Ok(Pattern { source: source.to_string(), regex }),
            Err(error) => Err(error.to_string()),
        }
    }

    /// Whether the regular expression matches anywhere in `text`: `regex::Regex::is_match`.
    #[verifier::external_body]
    pub(crate) fn is_match(&self, text: &str) -> (matched: bool)
        ensures
            matched == regex_is_match(self.source(), text@),
    {
        self.regex.is_match(text)
    }

    /// The captures of the first match in `text` expanded into `template`:
    /// `regex::Regex::captures` then `regex::Captures::expand`.
    ///
    /// There are captures exactly when the regular expression matches.
    #[verifier::external_body]
    pub(crate) fn expand(&self, text: &str, template: &str) -> (expanded: Option<String>)
        ensures
            expanded is Some <==> regex_is_match(self.source(), text@),
            expanded matches Some(e) ==> e@ == regex_expansion(self.source(), text@, template@),
    {
        match self.regex.captures(text) {
            Some(captures) => {
                let mut expanded = String::new();
                captures.expand(template, &mut expanded);
                Some(expanded)
            },
            None => None,
        }
    }
}

} // verus!
