//! Markdown (the `markdown` crate): HTML rendering and the headings of a document.
use vstd::prelude::*;

verus! {

/// The characters of an optional string.
pub open spec fn option_text(text: Option<String>) -> Option<Seq<char>> {
    match text {
        Some(s) => Some(s@),
        None => None,
    }
}

/// The HTML that `markdown::to_html_with_options` renders for `content` with the CommonMark
/// options (`Options::default()`), HTML in the content allowed or not; `None` when it fails.
pub uninterp spec fn commonmark_html(content: Seq<char>, allow_dangerous_html: bool) -> Option<
    Seq<char>,
>;

/// The HTML that `markdown::to_html_with_options` renders for `content` with the GitHub
/// options (`Options::gfm()`), HTML in the content allowed or not; `None` when it fails.
pub uninterp spec fn gfm_html(content: Seq<char>, allow_dangerous_html: bool) -> Option<Seq<char>>;

/// The top-level nodes of the syntax tree that `markdown::to_mdast` builds for `content`
/// with `ParseOptions::default()` (or, if `gfm`, `ParseOptions::gfm()`): for each node, the
/// text of its first child when it is a heading whose first child is text, and `None`
/// otherwise. `None` as a whole when parsing fails.
pub uninterp spec fn markdown_heading_texts(content: Seq<char>, gfm: bool) -> Option<
    Seq<Option<Seq<char>>>,
>;

/// `markdown::to_html_with_options` with `Options::default()`, the `allow_dangerous_html`
/// compile option set as given.
#[verifier::external_body]
pub(crate) fn commonmark_to_html(content: &str, allow_dangerous_html: bool) -> (html: Option<String>)
    ensures
        html is Some <==> commonmark_html(content@, allow_dangerous_html) is Some,
        html matches Some(h) ==> commonmark_html(content@, allow_dangerous_html) == Some(h@),
{
    let mut options = ::markdown::Options::default();
    options.compile.allow_dangerous_html = allow_dangerous_html;
    ::markdown::to_html_with_options(content, &options).ok()
}

/// `markdown::to_html_with_options` with `Options::gfm()`, the `allow_dangerous_html` compile
/// option set as given.
#[verifier::external_body]
pub(crate) fn gfm_to_html(content: &str, allow_dangerous_html: bool) -> (html: Option<String>)
    ensures
        html is Some <==> gfm_html(content@, allow_dangerous_html) is Some,
        html matches Some(h) ==> gfm_html(content@, allow_dangerous_html) == Some(h@),
{
    let mut options = ::markdown::Options::gfm();
    options.compile.allow_dangerous_html = allow_dangerous_html;
    ::markdown::to_html_with_options(content, &options).ok()
}

/// A node of the Markdown syntax tree (`markdown::mdast::Node`).
#[verifier::external_type_specification]
#[verifier::external_body]
pub struct ExMdastNode(::markdown::mdast::Node);

/// `markdown::mdast::Node::children` of a node, each child reduced to the text of its first child when it is a heading whose first child
/// is text.
#[verifier::external_body]
fn heading_texts_of(node: ::markdown::mdast::Node) -> Vec<Option<String>> {
    let children = node.children().map(|children| children.as_slice()).unwrap_or(&[]);
    children
        .iter()
        .map(|child| match child {
            ::markdown::mdast::Node::Heading(heading) => match heading.children.first() {
                Some(::markdown::mdast::Node::Text(text)) => Some(text.value.clone()),
                _ => None,
            },
            _ => None,
        })
        .collect()
}

/// `markdown::to_mdast` with `ParseOptions::default()`, then the root's children reduced by
/// `heading_texts_of`.
#[verifier::external_body]
pub(crate) fn commonmark_heading_texts(content: &str) -> (texts: Option<Vec<Option<String>>>)
    ensures
        texts is Some <==> markdown_heading_texts(content@, false) is Some,
        texts matches Some(t) ==> markdown_heading_texts(content@, false) == Some(
            t@.map_values(|text: Option<String>| option_text(text)),
        ),
{
    ::markdown::to_mdast(content, &::markdown::ParseOptions::default()).ok().map(heading_texts_of)
}

/// `markdown::to_mdast` with `ParseOptions::gfm()`, then the root's children reduced by
/// `heading_texts_of`.
#[verifier::external_body]
pub(crate) fn gfm_heading_texts(content: &str) -> (texts: Option<Vec<Option<String>>>)
    ensures
        texts is Some <==> markdown_heading_texts(content@, true) is Some,
        texts matches Some(t) ==> markdown_heading_texts(content@, true) == Some(
            t@.map_values(|text: Option<String>| option_text(text)),
        ),
{
    ::markdown::to_mdast(content, &::markdown::ParseOptions::gfm()).ok().map(heading_texts_of)
}

} // verus!
