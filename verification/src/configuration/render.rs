//! Render configuration.
use vstd::prelude::*;

use crate::format::{format_from_str, spec_format_from_str};
use crate::render::rendered_page::RenderedPageType;
use crate::render::renderer::Renderer;
use crate::text::{chars_of, ends_with, ends_with_exec, lemma_rfind_char, rfind_char, rfind_char_exec, slice_chars, string_of};
use crate::util::constants::EXTENSION_SEPARATOR;
use super::annotations::AnnotationsConfiguration;
use super::constants::{DEFAULT_MAX_CONTENT_SIZE, DEFAULT_RENDER_MIDFIX, DEFAULT_TEMPLATE};

verus! {

/// Render configuration.
#[derive(Debug, Clone)]
pub struct RenderConfiguration {
    /// Rendered page midfix.
    pub rendered_page_midfix: String,
    /// Annotations.
    pub annotations: AnnotationsConfiguration,
    /// Default renderer.
    pub default_renderer: Renderer,
    /// Default template.
    pub default_template: String,
    /// Maximum content size in bytes.
    pub max_content_size: u64,
}

/// Whether a URI path points to a rendered page, and if so its type: the part before the last
/// dot must end with the midfix; the extension after it names the annotations format, or else
/// the page is content with embedded annotations.
pub open spec fn spec_is_rendered_page(uri_path: Seq<char>, midfix: Seq<char>) -> Option<
    RenderedPageType,
> {
    match rfind_char(uri_path, EXTENSION_SEPARATOR) {
        Some(last_dot) => if ends_with(uri_path.subrange(0, last_dot), midfix) {
            Some(
                match spec_format_from_str(uri_path.subrange(last_dot + 1, uri_path.len() as int)) {
                    Some(format) => RenderedPageType::Annotations(format),
                    None => RenderedPageType::ContentWithEmbeddedAnnotations,
                },
            )
        } else {
            None
        },
        None => None,
    }
}

/// Whether a URI path points to a rendered page with the given midfix, and if so its type.
pub fn rendered_page_type(uri_path: &str, midfix: &str) -> (page_type: Option<RenderedPageType>)
    ensures
        page_type == spec_is_rendered_page(uri_path@, midfix@),
{
    let v = chars_of(uri_path);
    match rfind_char_exec(&v, EXTENSION_SEPARATOR) {
        Some(last_dot) => {
            proof {
                lemma_rfind_char(v@, EXTENSION_SEPARATOR);
            }
            assert(last_dot < v.len());
            let without_extension = slice_chars(&v, 0, last_dot);
            let midfix_chars = chars_of(midfix);
            if ends_with_exec(&without_extension, &midfix_chars) {
                let extension = slice_chars(&v, last_dot + 1, v.len());
                let extension = string_of(&extension);
                match format_from_str(extension.as_str()) {
                    Some(format) => Some(RenderedPageType::Annotations(format)),
                    None => Some(RenderedPageType::ContentWithEmbeddedAnnotations),
                }
            } else {
                None
            }
        },
        None => None,
    }
}

impl RenderConfiguration {
    /// Whether the URI points to a rendered page, and if so returns its type.
    pub fn is_rendered_page(&self, uri_path: &str) -> (page_type: Option<RenderedPageType>)
        ensures
            page_type == spec_is_rendered_page(uri_path@, self.rendered_page_midfix@),
    {
        rendered_page_type(uri_path, self.rendered_page_midfix.as_str())
    }
}

impl Default for RenderConfiguration {
    fn default() -> (configuration: Self)
        ensures
            configuration.rendered_page_midfix@ == ".r"@,
            configuration.annotations.start_delimiter@ == "```"@,
            configuration.annotations.end_delimiter@ == "```"@,
            configuration.default_renderer == Renderer::GFM,
            configuration.default_template@ == "default.html"@,
            configuration.max_content_size == 1048576,
    {
        RenderConfiguration {
            annotations: AnnotationsConfiguration::default(),
            rendered_page_midfix: String::from_str(DEFAULT_RENDER_MIDFIX),
            default_renderer: Renderer::default(),
            default_template: String::from_str(DEFAULT_TEMPLATE),
            max_content_size: DEFAULT_MAX_CONTENT_SIZE,
        }
    }
}

} // verus!
