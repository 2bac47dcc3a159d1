//! Rendered pages: their parts, titles, values and catalogs.
use vstd::prelude::*;

use crate::render::annotations::spec_split_defined;

use crate::configuration::annotations::AnnotationsConfiguration;
use crate::configuration::constants::INDEX;
use crate::configuration::render::{spec_is_rendered_page, RenderConfiguration};
use crate::format::Format;
use crate::text::{
    chars_of, find, find_exec, lemma_find_from, lemma_rfind_char, rfind_char,
    rfind_char_exec, slice_chars, str_eq, string_of,
};
use crate::time::{format_date, formatted_date, http_date_timestamp, parse_http_date, DATE_TIME_FORMAT};
use crate::util::constants::{PATH_SEPARATOR, PATH_SEPARATOR_STRING};
use crate::util::file_path::{file_name, spec_file_name, spec_without_extension};
use crate::value::{
    contains_variable, display_value, value_display, get_variable, set_variable, value_view, variables_map, variables_view,
    Value, ValueView,
};
use super::annotations::{spec_split, Annotations};
use super::catalog::{is_stable_sort_of, sort_catalog, spec_sort_from_str, CatalogEntry, Sort};
use crate::headers::{headers_view, set_string_values, spec_set_string_values};
use crate::status::INTERNAL_SERVER_ERROR;
use super::renderer::{spec_render, Renderer};

verus! {

/// Rendered page type.
#[derive(Debug, Clone, Copy, PartialEq, Eq, Structural)]
pub enum RenderedPageType {
    /// Content with optional embedded annotations.
    ContentWithEmbeddedAnnotations,
    /// Just annotations.
    Annotations(Format),
}

/// Rendered page.
#[derive(Debug)]
pub struct RenderedPage {
    /// Headers (lowercase names).
    pub headers: Vec<(String, String)>,
    /// Annotations.
    pub annotations: Annotations,
    /// Content.
    pub content: Option<String>,
}

// ----------------------------------------------------------------------------------------
// Titles
// ----------------------------------------------------------------------------------------

/// The text of the first `<h1>` element: between the first "<h1>" and the first "</h1>" after
/// it.
pub open spec fn spec_title_from_content(content: Seq<char>) -> Option<Seq<char>> {
    match find(content, "<h1>"@) {
        Some(start) => {
            let rest = content.subrange(start + 4, content.len() as int);
            match find(rest, "</h1>"@) {
                Some(end) => Some(rest.subrange(0, end)),
                None => None,
            }
        },
        None => None,
    }
}

/// First `<h1>`.
pub fn title_from_content(content: &str) -> (title: Option<String>)
    ensures
        title is Some <==> spec_title_from_content(content@) is Some,
        title matches Some(t) ==> spec_title_from_content(content@) == Some(t@),
{
    proof {
        reveal_strlit("<h1>");
        reveal_strlit("</h1>");
    }
    let v = chars_of(content);
    let open_tag = chars_of("<h1>");
    let close_tag = chars_of("</h1>");
    match find_exec(&v, &open_tag) {
        Some(start) => {
            proof {
                lemma_find_from(v@, open_tag@, 0);
            }
            assert(start + 4 <= v.len());
            let rest = slice_chars(&v, start + 4, v.len());
            match find_exec(&rest, &close_tag) {
                Some(end) => {
                    proof {
                        lemma_find_from(rest@, close_tag@, 0);
                    }
                    let title = slice_chars(&rest, 0, end);
                    Some(string_of(&title))
                },
                None => None,
            }
        },
        None => None,
    }
}

/// File name with extension and without extension.
pub fn filename(path: &str) -> (names: (String, String))
    ensures
        names.0@ == spec_file_name(path@),
        names.1@ == spec_without_extension(spec_file_name(path@)),
{
    file_name(path)
}

// ----------------------------------------------------------------------------------------
// Headers
// ----------------------------------------------------------------------------------------

/// The value of the first header with the given name.
pub open spec fn spec_header(headers: Seq<(String, String)>, name: Seq<char>) -> Option<Seq<char>>
    decreases headers.len(),
{
    if headers.len() == 0 {
        None
    } else if headers[0].0@ == name {
        Some(headers[0].1@)
    } else {
        spec_header(headers.drop_first(), name)
    }
}

/// The value of the first header with the given name.
pub fn header<'a>(headers: &'a Vec<(String, String)>, name: &str) -> (value: Option<&'a str>)
    ensures
        value is Some <==> spec_header(headers@, name@) is Some,
        value matches Some(v) ==> spec_header(headers@, name@) == Some(v@),
{
    let mut i: usize = 0;
    assert(headers@.subrange(0, headers@.len() as int) =~= headers@);
    while i < headers.len()
        invariant
            i <= headers@.len(),
            spec_header(headers@, name@) == spec_header(headers@.subrange(i as int, headers@.len() as int), name@),
        decreases headers@.len() - i,
    {
        let ghost rest = headers@.subrange(i as int, headers@.len() as int);
        assert(rest.drop_first() =~= headers@.subrange(i + 1, headers@.len() as int));
        assert(rest[0] == headers@[i as int]);
        if str_eq(headers[i].0.as_str(), name) {
            return Some(headers[i].1.as_str());
        }
        i = i + 1;
    }
    None
}

// ----------------------------------------------------------------------------------------
// Rendered page
// ----------------------------------------------------------------------------------------

/// The renderer of a page: the annotated one, else the configured default.
pub open spec fn spec_page_renderer(annotations: Annotations, configuration: RenderConfiguration) -> Renderer {
    match annotations.renderer {
        Some(r) => r,
        None => configuration.default_renderer,
    }
}

/// The rendered content of a page: `Ok(None)` without content, `Err(())` when rendering fails.
pub open spec fn spec_render_content(page: RenderedPage, configuration: RenderConfiguration) -> Result<Option<Seq<char>>, ()> {
    match page.content {
        Some(content) => match spec_render(spec_page_renderer(page.annotations, configuration), content@) {
            Some(rendered) => Ok(Some(rendered)),
            None => Err(()),
        },
        None => Ok(None),
    }
}

/// The title of a page: the "title" value written as text if set (unless a float occurs in
/// it), else the first `<h1>` of the rendered content.
pub open spec fn spec_page_title(page: RenderedPage, configuration: RenderConfiguration) -> Result<Option<Seq<char>>, ()> {
    let values = variables_view(page.annotations.values@);
    if values.contains_key("title"@) {
        Ok(value_display(values["title"@]))
    } else {
        match spec_render_content(page, configuration) {
            Ok(Some(content)) => Ok(spec_title_from_content(content)),
            Ok(None) => Ok(None),
            Err(()) => Err(()),
        }
    }
}

/// When a page was updated: the annotation if set, else its `Last-Modified` header.
pub open spec fn spec_page_updated(page: RenderedPage) -> Option<i64> {
    match page.annotations.updated {
        Some(updated) => Some(updated),
        None => match spec_header(page.headers@, "last-modified"@) {
            Some(value) => http_date_timestamp(value),
            None => None,
        },
    }
}

/// The text of a value if it is text, else the empty text.
pub open spec fn text_or_empty(value: ValueView) -> Seq<char> {
    match value {
        ValueView::Text(text) => text,
        _ => Seq::empty(),
    }
}

/// A date value set unless the name is already set or there is no (formattable) date.
pub open spec fn with_date(values: Map<Seq<char>, ValueView>, name: Seq<char>, timestamp: Option<i64>) -> Map<Seq<char>, ValueView> {
    if values.contains_key(name) {
        values
    } else {
        match timestamp {
            Some(timestamp) => match formatted_date(timestamp) {
                Some(date) => values.insert(name, ValueView::Text(date)),
                None => values,
            },
            None => values,
        }
    }
}

/// The values a page is rendered with: "content" (the rendered content, or empty), "title"
/// (from the content's first `<h1>` when the content is text, or empty), "created" and
/// "updated" (formatted dates), each only if not already set. `None` when the content needs
/// rendering and that fails.
pub open spec fn spec_page_values(page: RenderedPage, configuration: RenderConfiguration) -> Option<Map<Seq<char>, ValueView>> {
    let values = variables_view(page.annotations.values@);
    if !values.contains_key("content"@) && spec_render_content(page, configuration) is Err {
        None
    } else {
        let with_content = if values.contains_key("content"@) {
            values
        } else {
            values.insert(
                "content"@,
                ValueView::Text(
                    match spec_render_content(page, configuration) {
                        Ok(Some(content)) => content,
                        _ => Seq::empty(),
                    },
                ),
            )
        };
        let with_title = if with_content.contains_key("title"@) {
            with_content
        } else {
            with_content.insert(
                "title"@,
                ValueView::Text(
                    match with_content["content"@] {
                        ValueView::Text(content) => match spec_title_from_content(content) {
                            Some(title) => title,
                            None => Seq::empty(),
                        },
                        _ => Seq::empty(),
                    },
                ),
            )
        };
        let with_created = with_date(with_title, "created"@, page.annotations.created);
        Some(with_date(with_created, "updated"@, spec_page_updated(page)))
    }
}

/// The URI path of the directory a page's catalog lists: the page's path up to its last
/// separator, then a separator.
pub open spec fn spec_catalog_uri_path(path: Seq<char>) -> Seq<char> {
    match rfind_char(path, PATH_SEPARATOR) {
        Some(last_slash) => path.subrange(0, last_slash) + seq![PATH_SEPARATOR],
        None => path.subrange(0, 1) + seq![PATH_SEPARATOR],
    }
}

/// Whether `spec_catalog_uri_path` can cut the path (without a separator it cuts after the
/// first character, which must then be ASCII).
pub open spec fn catalog_uri_path_defined(path: Seq<char>) -> bool {
    rfind_char(path, PATH_SEPARATOR) is Some || (path.len() > 0 && (path[0] as u32) < 128)
}

/// The sort named by a catalog annotation: its "sort" entry when that is text naming a sort,
/// else the default.
pub open spec fn spec_catalog_sort(catalog: ValueView) -> Sort {
    match catalog {
        ValueView::Mapping(entries) => match first_text_entry(entries, "sort"@) {
            Some(ValueView::Text(sort)) => match spec_sort_from_str(sort) {
                Some(sort) => sort,
                None => Sort::Alpha,
            },
            _ => Sort::Alpha,
        },
        _ => Sort::Alpha,
    }
}

/// The value of the first entry whose key is the given text.
pub open spec fn first_text_entry(entries: Seq<(ValueView, ValueView)>, key: Seq<char>) -> Option<ValueView>
    decreases entries.len(),
{
    if entries.len() == 0 {
        None
    } else if entries[0].0 == ValueView::Text(key) {
        Some(entries[0].1)
    } else {
        first_text_entry(entries.drop_first(), key)
    }
}

/// A page's catalog: its sort and the URI path of the directory it lists, when the page
/// has a "catalog" annotation.
pub open spec fn spec_catalog_request(page: RenderedPage, path: Seq<char>) -> Option<(Sort, Seq<char>)> {
    let other = variables_view(page.annotations.other@);
    if other.contains_key("catalog"@) {
        Some((spec_catalog_sort(other["catalog"@]), spec_catalog_uri_path(path)))
    } else {
        None
    }
}

/// The annotations to parse and the content of a page read from a string: a page of
/// annotations is all annotations; otherwise the annotations are split from the content.
pub open spec fn spec_parse(
    page_type: RenderedPageType,
    string: Seq<char>,
    configuration: AnnotationsConfiguration,
) -> (Option<(Format, Seq<char>)>, Option<Seq<char>>) {
    match page_type {
        RenderedPageType::Annotations(format) => (Some((format, string)), None),
        RenderedPageType::ContentWithEmbeddedAnnotations => {
            let (annotations, content) = spec_split(
                configuration.start_delimiter@,
                configuration.end_delimiter@,
                configuration.default_format,
                string,
            );
            (annotations, Some(content))
        },
    }
}

/// The characters of an optional string.
pub open spec fn opt_text(text: Option<String>) -> Option<Seq<char>> {
    match text {
        Some(t) => Some(t@),
        None => None,
    }
}

impl RenderedPage {
    /// Parse: the annotations to parse (with their format) and the content.
    pub fn parse(
        rendered_page_type: RenderedPageType,
        string: &str,
        configuration: &RenderConfiguration,
    ) -> (parsed: (Option<(Format, String)>, Option<String>))
        requires
            rendered_page_type is ContentWithEmbeddedAnnotations ==> spec_split_defined(
                configuration.annotations.start_delimiter@,
                configuration.annotations.end_delimiter@,
                string@,
            ),
        ensures
            ({
                let (annotations, content) = spec_parse(rendered_page_type, string@, configuration.annotations);
                &&& opt_text(parsed.1) == content
                &&& match annotations {
                    Some((format, text)) => parsed.0 matches Some((f, t)) && f == format && t@ == text,
                    None => parsed.0 is None,
                }
            }),
    {
        match rendered_page_type {
            RenderedPageType::Annotations(format) => (Some((format, String::from_str(string))), None),
            RenderedPageType::ContentWithEmbeddedAnnotations => {
                let (annotations, content) = configuration.annotations.split(string);
                (annotations, Some(content))
            },
        }
    }

    /// Render content.
    pub fn render_content(&self, configuration: &RenderConfiguration) -> (rendered: Result<Option<String>, u16>)
        ensures
            rendered is Ok <==> spec_render_content(*self, *configuration) is Ok,
            rendered matches Ok(r) ==> spec_render_content(*self, *configuration) == Ok::<Option<Seq<char>>, ()>(opt_text(r)),
            rendered matches Err(status) ==> status == crate::status::INTERNAL_SERVER_ERROR,
    {
        match &self.content {
            Some(content) => {
                let renderer = self.annotations.renderer(configuration);
                match renderer.render(content.as_str()) {
                    Ok(rendered) => Ok(Some(rendered)),
                    Err(status) => Err(status),
                }
            },
            None => Ok(None),
        }
    }

    /// From annotations or fallback to finding the title in the content.
    pub fn title(&self, configuration: &RenderConfiguration) -> (title: Result<Option<String>, u16>)
        ensures
            title is Ok <==> spec_page_title(*self, *configuration) is Ok,
            title matches Ok(t) ==> spec_page_title(*self, *configuration) == Ok::<Option<Seq<char>>, ()>(opt_text(t)),
            title matches Err(status) ==> status == crate::status::INTERNAL_SERVER_ERROR,
    {
        match get_variable(&self.annotations.values, "title") {
            Some(title) => Ok(display_value(title)),
            None => match self.render_content(configuration) {
                Ok(Some(content)) => Ok(title_from_content(content.as_str())),
                Ok(None) => Ok(None),
                Err(status) => Err(status),
            },
        }
    }

    /// From annotations or fallback to `Last-Modified` header.
    pub fn updated(&self) -> (updated: Option<i64>)
        ensures
            updated == spec_page_updated(*self),
    {
        match self.annotations.updated {
            Some(updated) => Some(updated),
            None => {
                proof {
                    reveal_strlit("last-modified");
                }
                match header(&self.headers, "last-modified") {
                    Some(value) => parse_http_date(value),
                    None => None,
                }
            },
        }
    }

    /// Sets the values a page is rendered with, unless already set: "content", "title",
    /// "created" and "updated".
    pub fn prepare_values(&mut self, configuration: &RenderConfiguration) -> (result: Result<(), u16>)
        ensures
            result is Ok <==> spec_page_values(*old(self), *configuration) is Some,
            result is Ok ==> spec_page_values(*old(self), *configuration) == Some(
                variables_view(final(self).annotations.values@),
            ),
            result matches Err(status) ==> status == crate::status::INTERNAL_SERVER_ERROR,
    {
        let ghost page = *self;
        proof {
            reveal_strlit("content");
            reveal_strlit("title");
            reveal_strlit("created");
            reveal_strlit("updated");
        }
        if !contains_variable(&self.annotations.values, "content") {
            let content = match self.render_content(configuration) {
                Ok(Some(content)) => content,
                Ok(None) => String::new(),
                Err(status) => return Err(status),
            };
            set_variable(&mut self.annotations.values, String::from_str("content"), Value::Text(content));
        }
        let ghost with_content = variables_view(self.annotations.values@);
        if !contains_variable(&self.annotations.values, "title") {
            let title = match get_variable(&self.annotations.values, "content") {
                Some(Value::Text(content)) => match title_from_content(content.as_str()) {
                    Some(title) => title,
                    None => String::new(),
                },
                _ => String::new(),
            };
            set_variable(&mut self.annotations.values, String::from_str("title"), Value::Text(title));
        }
        let ghost with_title = variables_view(self.annotations.values@);
        if !contains_variable(&self.annotations.values, "created") {
            match self.annotations.created {
                Some(created) => match format_date(created, DATE_TIME_FORMAT) {
                    Some(date) => set_variable(&mut self.annotations.values, String::from_str("created"), Value::Text(date)),
                    None => {},
                },
                None => {},
            }
        }
        let ghost with_created = variables_view(self.annotations.values@);
        assert(with_created == with_date(with_title, "created"@, page.annotations.created));
        if !contains_variable(&self.annotations.values, "updated") {
            match self.updated() {
                Some(updated) => match format_date(updated, DATE_TIME_FORMAT) {
                    Some(date) => set_variable(&mut self.annotations.values, String::from_str("updated"), Value::Text(date)),
                    None => {},
                },
                None => {},
            }
        }
        Ok(())
    }

    /// The catalog a page asks for: its sort and the URI path of the directory it lists.
    pub fn catalog_request(&self, path: &str) -> (request: Option<(Sort, String)>)
        requires
            catalog_uri_path_defined(path@),
        ensures
            request is Some <==> spec_catalog_request(*self, path@) is Some,
            request matches Some((sort, uri_path)) ==> spec_catalog_request(*self, path@) == Some((sort, uri_path@)),
    {
        proof {
            reveal_strlit("catalog");
        }
        match get_variable(&self.annotations.other, "catalog") {
            Some(catalog) => {
                let sort = catalog_sort(catalog);
                let uri_path = catalog_uri_path(path);
                Some((sort, uri_path))
            },
            None => None,
        }
    }
}

/// The sort named by a catalog annotation.
pub fn catalog_sort(catalog: &Value) -> (sort: Sort)
    ensures
        sort == spec_catalog_sort(value_view(*catalog)),
{
    proof {
        reveal_strlit("sort");
    }
    match catalog {
        Value::Mapping(entries) => {
            let ghost views = value_view(*catalog)->Mapping_0;
            let mut i: usize = 0;
            assert(views.subrange(0, views.len() as int) =~= views);
            while i < entries.len()
                invariant
                    *catalog == Value::Mapping(*entries),
                    views == value_view(*catalog)->Mapping_0,
                    views.len() == entries@.len(),
                    i <= entries@.len(),
                    first_text_entry(views, "sort"@) == first_text_entry(views.subrange(i as int, views.len() as int), "sort"@),
                decreases entries@.len() - i,
            {
                let ghost rest = views.subrange(i as int, views.len() as int);
                assert(rest.drop_first() =~= views.subrange(i + 1, views.len() as int));
                assert(rest[0] == views[i as int]);
                assert(views[i as int] == (value_view(entries@[i as int].0), value_view(entries@[i as int].1)));
                match &entries[i].0 {
                    Value::Text(key) => {
                        if str_eq(key.as_str(), "sort") {
                            return match &entries[i].1 {
                                Value::Text(sort) => match Sort::from_str(sort.as_str()) {
                                    Ok(sort) => sort,
                                    Err(_) => Sort::Alpha,
                                },
                                _ => Sort::Alpha,
                            };
                        }
                    },
                    _ => {},
                }
                i = i + 1;
            }
            Sort::Alpha
        },
        _ => Sort::Alpha,
    }
}

/// The URI path of the directory a page's catalog lists.
pub fn catalog_uri_path(path: &str) -> (uri_path: String)
    requires
        catalog_uri_path_defined(path@),
    ensures
        uri_path@ == spec_catalog_uri_path(path@),
{
    let v = chars_of(path);
    proof {
        lemma_rfind_char(v@, PATH_SEPARATOR);
    }
    let last_slash = match rfind_char_exec(&v, PATH_SEPARATOR) {
        Some(last_slash) => last_slash,
        None => 1,
    };
    let prefix = string_of(&slice_chars(&v, 0, last_slash));
    proof {
        reveal_strlit("/");
    }
    prefix.concat(PATH_SEPARATOR_STRING)
}

// ----------------------------------------------------------------------------------------
// Catalog
// ----------------------------------------------------------------------------------------

/// Whether a file belongs in a catalog, and if so its page type, file name and file name
/// without extension: index files do not; rendered pages do.
pub open spec fn spec_catalog_candidate(file_path: Seq<char>, midfix: Seq<char>) -> Option<(RenderedPageType, Seq<char>, Seq<char>)> {
    let name = spec_file_name(file_path);
    let stem = spec_without_extension(name);
    if stem == "index"@ {
        None
    } else {
        match spec_is_rendered_page(name, midfix) {
            Some(page_type) => Some((page_type, name, stem)),
            None => None,
        }
    }
}

/// Whether a file belongs in a catalog, and if so its page type, file name and file name
/// without extension.
pub fn catalog_candidate(file_path: &str, configuration: &RenderConfiguration) -> (candidate: Option<(RenderedPageType, String, String)>)
    ensures
        candidate is Some <==> spec_catalog_candidate(file_path@, configuration.rendered_page_midfix@) is Some,
        candidate matches Some((page_type, name, stem)) ==> spec_catalog_candidate(file_path@, configuration.rendered_page_midfix@) == Some((page_type, name@, stem@)),
{
    catalog_candidate_with(file_path, configuration.rendered_page_midfix.as_str())
}

/// Whether a file belongs in a catalog of rendered pages with the midfix, and if so its page
/// type, file name and file name without extension.
pub fn catalog_candidate_with(file_path: &str, midfix: &str) -> (candidate: Option<(RenderedPageType, String, String)>)
    ensures
        candidate is Some <==> spec_catalog_candidate(file_path@, midfix@) is Some,
        candidate matches Some((page_type, name, stem)) ==> spec_catalog_candidate(file_path@, midfix@) == Some((page_type, name@, stem@)),
{
    let (name, stem) = filename(file_path);
    proof {
        reveal_strlit("index");
    }
    if str_eq(stem.as_str(), INDEX) {
        return None;
    }
    match crate::configuration::render::rendered_page_type(name.as_str(), midfix) {
        Some(page_type) => Some((page_type, name, stem)),
        None => None,
    }
}

/// A catalog entry: the title defaults to the file name without extension, the link is the
/// directory's URI path followed by that name, and unknown times are 0.
pub fn catalog_entry(
    uri_path: &str,
    stem: &str,
    title: Option<String>,
    created: Option<i64>,
    updated: Option<i64>,
) -> (entry: CatalogEntry)
    ensures
        entry.title@ == match title {
            Some(t) => t@,
            None => stem@,
        },
        entry.href@ == uri_path@ + stem@,
        entry.created == match created {
            Some(c) => c,
            None => 0,
        },
        entry.updated == match updated {
            Some(u) => u,
            None => 0,
        },
{
    let title = match title {
        Some(title) => title,
        None => String::from_str(stem),
    };
    let href = String::from_str(uri_path).concat(stem);
    let created = match created {
        Some(created) => created,
        None => 0,
    };
    let updated = match updated {
        Some(updated) => updated,
        None => 0,
    };
    CatalogEntry { title, href, created, updated }
}

/// A catalog entry as plain values: title, link, created and updated.
pub open spec fn entry_fields(entry: CatalogEntry) -> (Seq<char>, Seq<char>, i64, i64) {
    (entry.title@, entry.href@, entry.created, entry.updated)
}

/// Catalog entries as plain values.
pub open spec fn entries_fields(entries: Seq<CatalogEntry>) -> Seq<(Seq<char>, Seq<char>, i64, i64)> {
    entries.map_values(|e: CatalogEntry| entry_fields(e))
}

/// The entries are the rows, stably sorted.
pub open spec fn sorts_rows(sort: Sort, rows: Seq<(Seq<char>, Seq<char>, i64, i64)>, entries: Seq<CatalogEntry>) -> bool {
    exists|unsorted: Seq<CatalogEntry>| entries_fields(unsorted) == rows && #[trigger] is_stable_sort_of(sort, unsorted, entries)
}

/// The catalog rows of a directory's files, in order: index files and files that are not
/// rendered pages are left out; each other file must have been read (`Err` otherwise) and
/// gives its title (else the file name without extension), its link (the directory's URI path
/// followed by that name) and its times (0 when unknown); `Err` when a title cannot be had.
pub open spec fn spec_catalog_rows(
    files: Seq<(String, Option<RenderedPage>)>,
    uri_path: Seq<char>,
    configuration: RenderConfiguration,
) -> Result<Seq<(Seq<char>, Seq<char>, i64, i64)>, ()>
    decreases files.len(),
{
    if files.len() == 0 {
        Ok(Seq::empty())
    } else {
        match spec_catalog_rows(files.drop_last(), uri_path, configuration) {
            Err(()) => Err(()),
            Ok(rows) => match spec_catalog_candidate(files.last().0@, configuration.rendered_page_midfix@) {
                None => Ok(rows),
                Some((_, _, stem)) => match files.last().1 {
                    None => Err(()),
                    Some(page) => match spec_page_title(page, configuration) {
                        Err(()) => Err(()),
                        Ok(title) => Ok(
                            rows.push(
                                (
                                    match title {
                                        Some(t) => t,
                                        None => stem,
                                    },
                                    uri_path + stem,
                                    match page.annotations.created {
                                        Some(c) => c,
                                        None => 0,
                                    },
                                    match page.annotations.updated {
                                        Some(u) => u,
                                        None => 0,
                                    },
                                ),
                            ),
                        ),
                    },
                },
            },
        }
    }
}

/// Once the rows of some first files fail, the rows of all of them fail.
proof fn lemma_catalog_rows_fail(files: Seq<(String, Option<RenderedPage>)>, uri_path: Seq<char>, configuration: RenderConfiguration, n: int)
    requires
        0 <= n <= files.len(),
        spec_catalog_rows(files.take(n), uri_path, configuration) is Err,
    ensures
        spec_catalog_rows(files, uri_path, configuration) is Err,
    decreases files.len() - n,
{
    if n < files.len() {
        assert(files.take(n + 1).drop_last() =~= files.take(n));
        lemma_catalog_rows_fail(files, uri_path, configuration, n + 1);
    } else {
        assert(files.take(n) =~= files);
    }
}

impl RenderedPage {
    /// Catalog: the rendered pages of a directory, sorted.
    ///
    /// `files` are the directory's file paths, each with the page read from it when it is a
    /// rendered page other than an index (`None` when it could not be read); `uri_path` is the
    /// directory's URI path.
    pub fn catalog(
        uri_path: &str,
        files: &Vec<(String, Option<RenderedPage>)>,
        sort: Sort,
        configuration: &RenderConfiguration,
    ) -> (catalog: Result<Vec<CatalogEntry>, u16>)
        ensures
            catalog is Ok <==> spec_catalog_rows(files@, uri_path@, *configuration) is Ok,
            catalog matches Ok(entries) ==> sorts_rows(sort, spec_catalog_rows(files@, uri_path@, *configuration)->Ok_0, entries@),
            catalog matches Err(status) ==> status == INTERNAL_SERVER_ERROR,
    {
        let mut entries: Vec<CatalogEntry> = Vec::new();
        let mut i: usize = 0;
        assert(files@.take(0) =~= Seq::<(String, Option<RenderedPage>)>::empty());
        assert(entries_fields(entries@) =~= Seq::<(Seq<char>, Seq<char>, i64, i64)>::empty());
        while i < files.len()
            invariant
                i <= files@.len(),
                spec_catalog_rows(files@.take(i as int), uri_path@, *configuration) == Ok::<
                    Seq<(Seq<char>, Seq<char>, i64, i64)>,
                    (),
                >(entries_fields(entries@)),
            decreases files@.len() - i,
        {
            proof {
                assert(files@.take(i + 1).drop_last() =~= files@.take(i as int));
                assert(files@.take(i + 1).last() == files@[i as int]);
            }
            match catalog_candidate(files[i].0.as_str(), configuration) {
                Some((_, _, stem)) => match &files[i].1 {
                    Some(page) => {
                        let title = match page.title(configuration) {
                            Ok(title) => title,
                            Err(status) => {
                                proof {
                                    lemma_catalog_rows_fail(files@, uri_path@, *configuration, i + 1);
                                }
                                return Err(status);
                            },
                        };
                        let entry = catalog_entry(uri_path, stem.as_str(), title, page.annotations.created, page.annotations.updated);
                        let ghost before = entries@;
                        entries.push(entry);
                        assert(entries_fields(entries@) =~= entries_fields(before).push(entry_fields(entry)));
                    },
                    None => {
                        proof {
                            lemma_catalog_rows_fail(files@, uri_path@, *configuration, i + 1);
                        }
                        return Err(INTERNAL_SERVER_ERROR);
                    },
                },
                None => {},
            }
            i = i + 1;
        }
        assert(files@.take(files@.len() as int) =~= files@);
        let ghost unsorted = entries@;
        sort_catalog(&mut entries, sort);
        proof {
            let rows = spec_catalog_rows(files@, uri_path@, *configuration);
            assert(rows == Ok::<Seq<(Seq<char>, Seq<char>, i64, i64)>, ()>(entries_fields(unsorted)));
            assert(entries_fields(unsorted) == rows->Ok_0);
            assert(is_stable_sort_of(sort, unsorted, entries@));
            assert(sorts_rows(sort, spec_catalog_rows(files@, uri_path@, *configuration)->Ok_0, entries@));
        }
        Ok(entries)
    }

    /// Merge the annotations' headers into the headers.
    pub fn merge_headers(self) -> (merged: Result<Vec<(String, String)>, u16>)
        ensures
            merged is Ok <==> spec_set_string_values(headers_view(self.headers@), headers_view(self.annotations.headers@)) is Some,
            merged matches Ok(m) ==> spec_set_string_values(headers_view(self.headers@), headers_view(self.annotations.headers@))
                == Some(headers_view(m@)),
            merged matches Err(status) ==> status == INTERNAL_SERVER_ERROR,
    {
        set_string_values(&self.headers, &self.annotations.headers)
    }
}

/// A template that was loaded, or the default template's content when the default template
/// was asked for and not found.
pub fn template_or_default(name: &str, loaded: Option<String>, default_template: &str, default_content: &str) -> (template: Option<String>)
    ensures
        template is Some <==> (loaded is Some || name@ == default_template@),
        template matches Some(t) ==> t@ == match loaded {
            Some(l) => l@,
            None => default_content@,
        },
{
    match loaded {
        Some(loaded) => Some(loaded),
        None => if str_eq(name, default_template) {
            Some(String::from_str(default_content))
        } else {
            None
        },
    }
}

} // verus!
