//! Renderers of page content.
use vstd::prelude::*;

use crate::markup::{
    commonmark_heading_texts, commonmark_html, commonmark_to_html, gfm_heading_texts, gfm_html, gfm_to_html,
    markdown_heading_texts, option_text,
};
use super::rendered_page::{spec_title_from_content, title_from_content};
use crate::status::INTERNAL_SERVER_ERROR;
use crate::text::{lower, to_lowercase};

verus! {

/// Renderer.
#[derive(Debug, Clone, Copy, PartialEq, Eq, Structural)]
pub enum Renderer {
    /// Passthrough.
    Passthrough,
    /// Markdown.
    Markdown,
    /// GitHub-Flavored Markdown.
    GFM,
}

impl Default for Renderer {
    fn default() -> (renderer: Self)
        ensures
            renderer == Renderer::GFM,
    {
        Renderer::GFM
    }
}

/// The renderer that a representation names, compared without case.
pub open spec fn spec_renderer_from_str(representation: Seq<char>) -> Option<Renderer> {
    let lowered = lower(representation);
    if lowered == "passthrough"@ {
        Some(Renderer::Passthrough)
    } else if lowered == "markdown"@ || lowered == "md"@ {
        Some(Renderer::Markdown)
    } else if lowered == "gfm"@ {
        Some(Renderer::GFM)
    } else {
        None
    }
}

/// The name of a renderer.
pub open spec fn spec_renderer_name(renderer: Renderer) -> Seq<char> {
    match renderer {
        Renderer::Passthrough => "passthrough"@,
        Renderer::Markdown => "markdown"@,
        Renderer::GFM => "gfm"@,
    }
}

/// What a renderer makes of content: the content itself, or the HTML of the Markdown (with
/// HTML in the content allowed); `None` when rendering fails.
pub open spec fn spec_render(renderer: Renderer, content: Seq<char>) -> Option<Seq<char>> {
    match renderer {
        Renderer::Passthrough => Some(content),
        Renderer::Markdown => commonmark_html(content, true),
        Renderer::GFM => gfm_html(content, true),
    }
}

impl Renderer {
    /// Parses a renderer name, ignoring case ("passthrough", "markdown" or "md", "gfm").
    pub fn from_str(representation: &str) -> (renderer: Result<Renderer, String>)
        ensures
            renderer is Ok <==> spec_renderer_from_str(representation@) is Some,
            renderer matches Ok(r) ==> spec_renderer_from_str(representation@) == Some(r),
            renderer matches Err(message) ==> message@ == "unsupported: "@ + representation@,
    {
        let lowered = to_lowercase(representation);
        let lowered = lowered.as_str();
        proof {
            reveal_strlit("passthrough");
            reveal_strlit("markdown");
            reveal_strlit("md");
            reveal_strlit("gfm");
        }
        if crate::text::str_eq(lowered, "passthrough") {
            Ok(Renderer::Passthrough)
        } else if crate::text::str_eq(lowered, "markdown") || crate::text::str_eq(lowered, "md") {
            Ok(Renderer::Markdown)
        } else if crate::text::str_eq(lowered, "gfm") {
            Ok(Renderer::GFM)
        } else {
            Err(String::from_str("unsupported: ").concat(representation))
        }
    }

    /// The name of the renderer.
    pub fn to_string(&self) -> (name: String)
        ensures
            name@ == spec_renderer_name(*self),
    {
        match self {
            Renderer::Passthrough => String::from_str("passthrough"),
            Renderer::Markdown => String::from_str("markdown"),
            Renderer::GFM => String::from_str("gfm"),
        }
    }

    /// Render.
    pub fn render(&self, content: &str) -> (rendered: Result<String, u16>)
        ensures
            rendered is Ok <==> spec_render(*self, content@) is Some,
            rendered matches Ok(r) ==> spec_render(*self, content@) == Some(r@),
            rendered matches Err(status) ==> status == INTERNAL_SERVER_ERROR,
    {
        match self {
            Renderer::Passthrough => Ok(String::from_str(content)),
            Renderer::Markdown => Self::render_markdown(content, false),
            Renderer::GFM => Self::render_markdown(content, true),
        }
    }

    /// Render Markdown (GitHub-Flavored if `gfm`), HTML in the content allowed.
    pub fn render_markdown(content: &str, gfm: bool) -> (rendered: Result<String, u16>)
        ensures
            rendered is Ok <==> (if gfm {
                gfm_html(content@, true)
            } else {
                commonmark_html(content@, true)
            }) is Some,
            rendered matches Ok(r) ==> (if gfm {
                gfm_html(content@, true)
            } else {
                commonmark_html(content@, true)
            }) == Some(r@),
            rendered matches Err(status) ==> status == INTERNAL_SERVER_ERROR,
    {
        let html = if gfm {
            gfm_to_html(content, true)
        } else {
            commonmark_to_html(content, true)
        };
        match html {
            Some(html) => Ok(html),
            None => Err(INTERNAL_SERVER_ERROR),
        }
    }
}

/// The first heading text among the root's children, if any.
pub open spec fn first_heading_text(texts: Seq<Option<Seq<char>>>) -> Option<Seq<char>>
    decreases texts.len(),
{
    if texts.len() == 0 {
        None
    } else {
        match texts[0] {
            Some(text) => Some(text),
            None => first_heading_text(texts.drop_first()),
        }
    }
}

/// The title a renderer finds in content: the first `<h1>` of passthrough content, or the
/// text of the first heading of Markdown content (`Err` when Markdown does not parse).
pub open spec fn spec_renderer_title(renderer: Renderer, content: Seq<char>) -> Result<Option<Seq<char>>, ()> {
    match renderer {
        Renderer::Passthrough => Ok(spec_title_from_content(content)),
        Renderer::Markdown => match markdown_heading_texts(content, false) {
            Some(texts) => Ok(first_heading_text(texts)),
            None => Err(()),
        },
        Renderer::GFM => match markdown_heading_texts(content, true) {
            Some(texts) => Ok(first_heading_text(texts)),
            None => Err(()),
        },
    }
}

/// The first heading text of a list of root children.
fn first_heading(texts: &Vec<Option<String>>) -> (title: Option<String>)
    ensures
        option_text(title) == first_heading_text(texts@.map_values(|text: Option<String>| option_text(text))),
{
    let ghost views = texts@.map_values(|text: Option<String>| option_text(text));
    let mut i: usize = 0;
    assert(views.subrange(0, views.len() as int) =~= views);
    while i < texts.len()
        invariant
            i <= texts@.len(),
            views == texts@.map_values(|text: Option<String>| option_text(text)),
            first_heading_text(views) == first_heading_text(views.subrange(i as int, views.len() as int)),
        decreases texts@.len() - i,
    {
        let ghost rest = views.subrange(i as int, views.len() as int);
        assert(rest[0] == views[i as int]);
        assert(rest.drop_first() =~= views.subrange(i + 1, views.len() as int));
        match &texts[i] {
            Some(text) => return Some(String::from_str(text.as_str())),
            None => {},
        }
        i = i + 1;
    }
    None
}

impl Renderer {
    /// Title from passthrough content: the first `<h1>`.
    pub fn title_from_passthrough(&self, content: &str) -> (title: Result<Option<String>, u16>)
        ensures
            title matches Ok(t) && option_text(t) == spec_title_from_content(content@),
    {
        Ok(title_from_content(content))
    }

    /// Title from Markdown content (GitHub-Flavored if `gfm`): the text in the first heading.
    pub fn title_from_markdown(&self, content: &str, gfm: bool) -> (title: Result<Option<String>, u16>)
        ensures
            title is Ok <==> markdown_heading_texts(content@, gfm) is Some,
            title matches Ok(t) ==> option_text(t) == first_heading_text(markdown_heading_texts(content@, gfm)->0),
            title matches Err(status) ==> status == INTERNAL_SERVER_ERROR,
    {
        let texts = if gfm {
            gfm_heading_texts(content)
        } else {
            commonmark_heading_texts(content)
        };
        match texts {
            Some(texts) => Ok(first_heading(&texts)),
            None => Err(INTERNAL_SERVER_ERROR),
        }
    }

    /// Title from content, as the renderer reads it.
    pub fn title_from_content(&self, content: &str) -> (title: Result<Option<String>, u16>)
        ensures
            title is Ok <==> spec_renderer_title(*self, content@) is Ok,
            title matches Ok(t) ==> spec_renderer_title(*self, content@) == Ok::<Option<Seq<char>>, ()>(option_text(t)),
            title matches Err(status) ==> status == INTERNAL_SERVER_ERROR,
    {
        match self {
            Renderer::Passthrough => self.title_from_passthrough(content),
            Renderer::Markdown => self.title_from_markdown(content, false),
            Renderer::GFM => self.title_from_markdown(content, true),
        }
    }
}

/// A renderer's name names that renderer.
pub proof fn law_renderer_name_round_trip(renderer: Renderer)
    ensures
        spec_renderer_from_str(spec_renderer_name(renderer)) == Some(renderer),
{
    reveal_strlit("passthrough");
    reveal_strlit("markdown");
    reveal_strlit("md");
    reveal_strlit("gfm");
    let name = spec_renderer_name(renderer);
    assert(crate::text::all_ascii(name));
    assert(lower(name) =~= name);
}

} // verus!
