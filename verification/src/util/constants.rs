//! Separators shared by URI paths and file paths.
use vstd::prelude::*;

verus! {

/// URI path separator.
pub const PATH_SEPARATOR: char = '/';

/// URI path separator as a string.
pub const PATH_SEPARATOR_STRING: &'static str = "/";

/// Prefix of a hidden path segment.
pub const HIDDEN_PATH_PREFIX: char = '.';

/// File path separator (Unix).
pub const MAIN_SEPARATOR: char = '/';

/// File extension separator.
pub const EXTENSION_SEPARATOR: char = '.';

} // verus!
