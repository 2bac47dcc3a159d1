//! Configuration constants.
use vstd::prelude::*;

verus! {

/// Default annotations delimiter.
pub const DEFAULT_ANNOTATIONS_DELIMITER: &'static str = "```";

/// Default rendered page midfix.
pub const DEFAULT_RENDER_MIDFIX: &'static str = ".r";

/// Default template.
pub const DEFAULT_TEMPLATE: &'static str = "default.html";

/// HTML file extension.
pub const HTML_EXTENSION: &'static str = "html";

/// HTML file suffix.
pub const HTML_SUFFIX: &'static str = ".html";

/// Suffix of Markdown sources of HTML pages.
pub const CREDENCE_SUFFIX: &'static str = ".html.md";

/// Index file name (without extension).
pub const INDEX: &'static str = "index";

/// Separator followed by the index file name.
pub const SEPARATOR_AND_INDEX: &'static str = "/index";

/// Default maximum content size (1 MiB).
pub const DEFAULT_MAX_CONTENT_SIZE: u64 = 1048576;

/// Default maximum request body size (4 KiB).
pub const DEFAULT_MAX_BODY_SIZE: u64 = 4096;

/// Default maximum request duration in seconds.
pub const DEFAULT_MAX_DURATION_SECONDS: u64 = 5;

} // verus!
