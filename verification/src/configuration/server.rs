//! Server configuration.
use vstd::prelude::*;

use crate::text::{chars_of, ends_with, ends_with_exec, slice_chars, starts_with, starts_with_exec, string_of, trim_start_char};
use crate::util::file_path::{path_file_name, path_file_name_of, path_parent, path_parent_of, spec_path_join};
use crate::util::uri_path::{law_dot_after_separator_is_hidden, spec_has_hidden_segment, uri_path_has_hidden_segment};
use super::listen::Listen;
use super::paths::PathsConfiguration;
use super::render::{spec_is_rendered_page, RenderConfiguration};
use super::requests::RequestsConfiguration;
use super::uri::UriConfiguration;

verus! {

/// Server configuration.
#[derive(Debug)]
pub struct ServerConfiguration {
    /// Paths.
    pub paths: PathsConfiguration,
    /// URI.
    pub uri: UriConfiguration,
    /// Render.
    pub render: RenderConfiguration,
    /// Requests.
    pub requests: RequestsConfiguration,
    /// Listeners.
    pub listen: Vec<Listen>,
}

/// Whether a URI path is hidden: it has a hidden segment, ends with a hidden suffix, or is a
/// rendered page.
pub open spec fn spec_is_hidden(configuration: ServerConfiguration, uri_path: Seq<char>) -> bool {
    ||| spec_has_hidden_segment(uri_path)
    ||| exists|i: int|
        0 <= i < configuration.uri.hide_suffixes@.len() && ends_with(
            uri_path,
            #[trigger] configuration.uri.hide_suffixes@[i]@,
        )
    ||| spec_is_rendered_page(uri_path, configuration.render.rendered_page_midfix@) is Some
}

/// Where the rendered page of a URI path is looked for: the directory of its asset path, and
/// the prefix (the asset's file name followed by the midfix and a dot) of the file names that
/// qualify.
pub open spec fn spec_rendered_page_lookup(configuration: ServerConfiguration, uri_path: Seq<char>) -> Option<(Seq<char>, Seq<char>)> {
    let asset = spec_path_join(configuration.paths.assets@, trim_start_char(uri_path, '/'));
    match (path_file_name_of(asset), path_parent_of(asset)) {
        (Some(name), Some(parent)) => Some((parent, name + configuration.render.rendered_page_midfix@ + seq!['.'])),
        _ => None,
    }
}

/// The index of the first name that begins with the prefix.
pub open spec fn spec_first_with_prefix(names: Seq<String>, prefix: Seq<char>) -> Option<int> {
    if exists|i: int| 0 <= i < names.len() && starts_with(#[trigger] names[i]@, prefix) {
        Some(
            choose|i: int|
                0 <= i < names.len() && starts_with(#[trigger] names[i]@, prefix) && forall|j: int|
                    0 <= j < i ==> !starts_with(#[trigger] names[j]@, prefix),
        )
    } else {
        None
    }
}

/// The URI path of the rendered page found among the directory's file names: the URI path,
/// the midfix, a dot, then whatever follows the prefix in the first name that begins with it.
pub open spec fn spec_rendered_page_uri_path(uri_path: Seq<char>, midfix: Seq<char>, prefix: Seq<char>, names: Seq<String>) -> Option<Seq<char>> {
    match spec_first_with_prefix(names, prefix) {
        Some(i) => Some(uri_path + midfix + seq!['.'] + names[i]@.subrange(prefix.len() as int, names[i]@.len() as int)),
        None => None,
    }
}

/// A URI path that ends with one of the hidden suffixes is hidden.
pub proof fn law_hidden_suffix_hides(configuration: ServerConfiguration, uri_path: Seq<char>, i: int)
    requires
        0 <= i < configuration.uri.hide_suffixes@.len(),
        ends_with(uri_path, configuration.uri.hide_suffixes@[i]@),
    ensures
        spec_is_hidden(configuration, uri_path),
{
}

/// A rendered page's URI path is hidden: rendered pages are reached only through rewriting.
pub proof fn law_rendered_pages_hidden(configuration: ServerConfiguration, uri_path: Seq<char>)
    requires
        spec_is_rendered_page(uri_path, configuration.render.rendered_page_midfix@) is Some,
    ensures
        spec_is_hidden(configuration, uri_path),
{
}

/// Every URI path with a segment that begins with "." (a "." first, or right after a "/") is
/// hidden, wherever that segment stands: "/.git/config" is hidden as well as "/a/.env".
pub proof fn law_dot_segments_hidden(configuration: ServerConfiguration, uri_path: Seq<char>, k: int)
    requires
        0 <= k < uri_path.len(),
        k == 0 || uri_path[k - 1] == '/',
        uri_path[k] == '.',
    ensures
        spec_is_hidden(configuration, uri_path),
{
    law_dot_after_separator_is_hidden(uri_path, k);
}

impl ServerConfiguration {
    /// Whether the URI path is hidden.
    pub fn is_hidden(&self, uri_path: &str) -> (hidden: bool)
        ensures
            hidden == spec_is_hidden(*self, uri_path@),
    {
        if uri_path_has_hidden_segment(uri_path) {
            return true;
        }
        let v = chars_of(uri_path);
        let mut i: usize = 0;
        while i < self.uri.hide_suffixes.len()
            invariant
                v@ == uri_path@,
                i <= self.uri.hide_suffixes@.len(),
                forall|j: int| 0 <= j < i ==> !ends_with(uri_path@, #[trigger] self.uri.hide_suffixes@[j]@),
            decreases self.uri.hide_suffixes@.len() - i,
        {
            let suffix = chars_of(self.uri.hide_suffixes[i].as_str());
            if ends_with_exec(&v, &suffix) {
                assert(ends_with(uri_path@, self.uri.hide_suffixes@[i as int]@));
                return true;
            }
            i = i + 1;
        }
        self.render.is_rendered_page(uri_path).is_some()
    }

    /// Where the rendered page of a URI path is looked for: a directory, and the prefix of the
    /// file names that qualify.
    pub fn rendered_page_lookup(&self, uri_path: &str) -> (lookup: Option<(String, String)>)
        ensures
            lookup is Some <==> spec_rendered_page_lookup(*self, uri_path@) is Some,
            lookup matches Some((directory, prefix)) ==> spec_rendered_page_lookup(*self, uri_path@) == Some((directory@, prefix@)),
    {
        let asset_path = self.paths.asset(uri_path);
        match path_file_name(asset_path.as_str()) {
            Some(name) => match path_parent(asset_path.as_str()) {
                Some(parent) => {
                    proof {
                        reveal_strlit(".");
                    }
                    Some((parent, name.concat(self.render.rendered_page_midfix.as_str()).concat(".")))
                },
                None => None,
            },
            None => None,
        }
    }

    /// Rendered page URI path: "{path}" -> "{path}.r.yaml" or "{path}.r.*", by the first of the
    /// directory's file names that begins with the prefix.
    pub fn rendered_page_uri_path(&self, uri_path: &str, prefix: &str, names: &Vec<String>) -> (found: Option<String>)
        ensures
            found is Some <==> spec_rendered_page_uri_path(uri_path@, self.render.rendered_page_midfix@, prefix@, names@) is Some,
            found matches Some(f) ==> spec_rendered_page_uri_path(uri_path@, self.render.rendered_page_midfix@, prefix@, names@) == Some(f@),
    {
        let prefix_chars = chars_of(prefix);
        let mut i: usize = 0;
        while i < names.len()
            invariant
                prefix_chars@ == prefix@,
                i <= names@.len(),
                forall|j: int| 0 <= j < i ==> !starts_with(#[trigger] names@[j]@, prefix@),
            decreases names@.len() - i,
        {
            let name = chars_of(names[i].as_str());
            if starts_with_exec(&name, &prefix_chars) {
                proof {
                    let k = i as int;
                    assert(starts_with(names@[k]@, prefix@));
                    let c = spec_first_with_prefix(names@, prefix@)->0;
                    assert(0 <= c < names@.len() && starts_with(names@[c]@, prefix@));
                    assert(c == k);
                }
                let extension = string_of(&slice_chars(&name, prefix_chars.len(), name.len()));
                proof {
                    reveal_strlit(".");
                }
                let found = String::from_str(uri_path).concat(self.render.rendered_page_midfix.as_str()).concat(".").concat(extension.as_str());
                return Some(found);
            }
            i = i + 1;
        }
        None
    }
}

/// What is wrong with the web assets path, if anything: it must exist and be a directory.
pub fn assets_path_problem(exists: bool, is_directory: bool) -> (problem: Option<&'static str>)
    ensures
        problem is None <==> (exists && is_directory),
        !exists ==> (problem matches Some(p) && p@ == "web assets path does not exist"@),
        exists && !is_directory ==> (problem matches Some(p) && p@ == "web assets path is not a directory"@),
{
    if !exists {
        Some("web assets path does not exist")
    } else if !is_directory {
        Some("web assets path is not a directory")
    } else {
        None
    }
}

} // verus!
