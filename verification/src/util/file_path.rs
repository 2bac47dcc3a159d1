//! File path utilities (Unix paths held as strings).
use vstd::prelude::*;

use crate::text::{
    occurs_at, starts_with, chars_of, find_char, find_char_exec, lemma_find_from, lemma_rfind_char, rfind_char,
    rfind_char_exec, slice_chars, string_of,
};
use super::constants::{EXTENSION_SEPARATOR, MAIN_SEPARATOR};

verus! {

/// Whether a path is absolute: on Unix, whether it begins at the root.
pub open spec fn spec_is_absolute(path: Seq<char>) -> bool {
    path.len() > 0 && path[0] == MAIN_SEPARATOR
}

/// `path` adjoined to `base`, as `Path::join` does on Unix: an absolute `path` replaces
/// `base`; otherwise a separator is put between them unless `base` is empty or already ends
/// with one.
pub open spec fn spec_path_join(base: Seq<char>, path: Seq<char>) -> Seq<char> {
    if spec_is_absolute(path) {
        path
    } else if base.len() == 0 || base.last() == MAIN_SEPARATOR {
        base + path
    } else {
        base + seq![MAIN_SEPARATOR] + path
    }
}

/// The file name: whatever follows the last separator.
pub open spec fn spec_file_name(path: Seq<char>) -> Seq<char> {
    match rfind_char(path, MAIN_SEPARATOR) {
        Some(last_slash) => path.subrange(last_slash + 1, path.len() as int),
        None => path,
    }
}

/// A file name without its extensions: whatever precedes the first dot.
pub open spec fn spec_without_extension(file_name: Seq<char>) -> Seq<char> {
    match find_char(file_name, EXTENSION_SEPARATOR) {
        Some(first_dot) => file_name.subrange(0, first_dot),
        None => file_name,
    }
}

/// A file name without its extensions is a beginning of the file name.
pub proof fn law_stem_begins_file_name(path: Seq<char>)
    ensures
        starts_with(spec_file_name(path), spec_without_extension(spec_file_name(path))),
{
    let name = spec_file_name(path);
    lemma_find_from(name, seq![EXTENSION_SEPARATOR], 0);
    match find_char(name, EXTENSION_SEPARATOR) {
        Some(d) => {
            assert(occurs_at(name, seq![EXTENSION_SEPARATOR], d));
            assert(name.subrange(0, d).len() == d);
            assert(name.subrange(0, name.subrange(0, d).len() as int) =~= name.subrange(0, d));
        },
        None => {
            assert(name.subrange(0, name.len() as int) =~= name);
        },
    }
}

/// The last component of a path, as `Path::file_name` gives it.
pub uninterp spec fn path_file_name_of(path: Seq<char>) -> Option<Seq<char>>;

/// The path without its last component, as `Path::parent` gives it.
pub uninterp spec fn path_parent_of(path: Seq<char>) -> Option<Seq<char>>;

/// `Path::file_name`.
#[verifier::external_body]
pub(crate) fn path_file_name(path: &str) -> (name: Option<String>)
    ensures
        name is Some <==> path_file_name_of(path@) is Some,
        name matches Some(n) ==> path_file_name_of(path@) == Some(n@),
{
    std::path::Path::new(path).file_name().map(|name| name.to_string_lossy().into_owned())
}

/// `Path::parent`.
#[verifier::external_body]
pub(crate) fn path_parent(path: &str) -> (parent: Option<String>)
    ensures
        parent is Some <==> path_parent_of(path@) is Some,
        parent matches Some(p) ==> path_parent_of(path@) == Some(p@),
{
    std::path::Path::new(path).parent().map(|parent| parent.to_string_lossy().into_owned())
}

/// `Path::is_absolute`.
#[verifier::external_body]
pub(crate) fn path_is_absolute(path: &str) -> (absolute: bool)
    ensures
        absolute == spec_is_absolute(path@),
{
    std::path::Path::new(path).is_absolute()
}

/// `Path::join`.
#[verifier::external_body]
pub(crate) fn path_join(base: &str, path: &str) -> (joined: String)
    ensures
        joined@ == spec_path_join(base@, path@),
{
    std::path::Path::new(base).join(path).to_string_lossy().into_owned()
}

/// File name with extension and without extension.
pub fn file_name(path: &str) -> (names: (String, String))
    ensures
        names.0@ == spec_file_name(path@),
        names.1@ == spec_without_extension(spec_file_name(path@)),
{
    let v = chars_of(path);
    let name = match rfind_char_exec(&v, MAIN_SEPARATOR) {
        Some(last_slash) => {
            proof {
                lemma_rfind_char(v@, MAIN_SEPARATOR);
            }
            assert(last_slash < v.len());
            slice_chars(&v, last_slash + 1, v.len())
        },
        None => v,
    };
    proof {
        lemma_find_from(name@, seq![EXTENSION_SEPARATOR], 0);
    }
    let stem = match find_char_exec(&name, EXTENSION_SEPARATOR) {
        Some(first_dot) => slice_chars(&name, 0, first_dot),
        None => slice_chars(&name, 0, name.len()),
    };
    assert(name@.subrange(0, name@.len() as int) =~= name@);
    (string_of(&name), string_of(&stem))
}

} // verus!
