//! Rendered pages of a site: their titles, headers, and the variables they are rendered with.
use vstd::prelude::*;

use crate::render::annotations::spec_split_defined;

use crate::format::Format;
use crate::headers::{headers_view, set_string_values, spec_set_string_values};
use crate::markup::option_text;
use crate::render::annotations::Annotations;
use crate::render::rendered_page::{spec_parse, RenderedPageType};
use crate::render::renderer::{spec_render, spec_renderer_title, Renderer};
use crate::status::INTERNAL_SERVER_ERROR;
use crate::value::{display_value, value_display, 
    contains_variable, get_variable, set_variable, value_view, variables_map, variables_view, Value,
    ValueView, Variables,
};
use super::credence::{CredenceConfiguration, RenderConfiguration};
use super::server::Socket;

verus! {

/// Rendered page.
#[derive(Debug)]
pub struct RenderedPage {
    /// Headers (lowercase names).
    pub headers: Vec<(String, String)>,
    /// Annotations.
    pub annotations: Annotations,
    /// Content.
    pub content: Option<String>,
}

/// The renderer of a page: its annotated one, else the configured default.
pub open spec fn page_renderer(annotations: Annotations, configuration: RenderConfiguration) -> Renderer {
    match annotations.renderer {
        Some(renderer) => renderer,
        None => configuration.default_renderer,
    }
}

/// The title of a page: the "title" variable when set (`None` unless it is text), else the
/// title its renderer finds in its content.
pub open spec fn spec_site_title(page: RenderedPage, configuration: RenderConfiguration) -> Result<Option<Seq<char>>, ()> {
    let values = variables_map(page.annotations.values@);
    if values.contains_key("title"@) {
        Ok(value_display(value_view(values["title"@])))
    } else {
        match page.content {
            Some(content) => spec_renderer_title(page_renderer(page.annotations, configuration), content@),
            None => Ok(None),
        }
    }
}

/// A list of variables made of global ones and a page's own: the page's override.
pub open spec fn spec_merged_variables(globals: Seq<(String, Value)>, own: Seq<(String, Value)>) -> Map<Seq<char>, ValueView> {
    variables_view(globals).union_prefer_right(variables_view(own))
}

/// The variables of a list with one more entry in front: the new entry counts.
pub proof fn lemma_variables_map_prepend(entry: (String, Value), rest: Seq<(String, Value)>)
    ensures
        variables_map(seq![entry] + rest) == variables_map(rest).insert(entry.0@, entry.1),
    decreases rest.len(),
{
    let all = seq![entry] + rest;
    if rest.len() == 0 {
        assert(all.drop_last() =~= Seq::<(String, Value)>::empty());
        assert(all.len() == 1);
        assert(all.last() == entry);
        assert(variables_map(all.drop_last()) == Map::<Seq<char>, Value>::empty());
        assert(variables_map(rest) == Map::<Seq<char>, Value>::empty());
        assert(variables_map(all) == Map::<Seq<char>, Value>::empty().insert(entry.0@, entry.1));
    } else {
        assert(all.drop_last() =~= seq![entry] + rest.drop_last());
        lemma_variables_map_prepend(entry, rest.drop_last());
        assert(all.last() == rest.last());
        let r = variables_map(rest.drop_last());
        let m = r.insert(entry.0@, entry.1);
        let (k, v) = rest.last();
        assert(variables_map(all.drop_last()) == m);
        if k@ == entry.0@ {
            assert(variables_map(all) == m);
            assert(variables_map(all) =~= variables_map(rest).insert(entry.0@, entry.1));
        } else if r.contains_key(k@) {
            assert(variables_map(rest) == r);
            assert(variables_map(all) =~= variables_map(rest).insert(entry.0@, entry.1));
        } else {
            assert(variables_map(rest) == r.insert(k@, v));
            assert(variables_map(all) == m.insert(k@, v));
            assert(variables_map(all) =~= variables_map(rest).insert(entry.0@, entry.1));
        }
    }
}

/// The variables of a list with one more entry at the end: it counts unless its name is set.
pub proof fn lemma_variables_view_push(vars: Seq<(String, Value)>, entry: (String, Value))
    ensures
        variables_view(vars.push(entry)) == if variables_view(vars).contains_key(entry.0@) {
            variables_view(vars)
        } else {
            variables_view(vars).insert(entry.0@, value_view(entry.1))
        },
{
    assert(vars.push(entry).drop_last() =~= vars);
    assert(variables_view(vars.push(entry)) =~= if variables_view(vars).contains_key(entry.0@) {
        variables_view(vars)
    } else {
        variables_view(vars).insert(entry.0@, value_view(entry.1))
    });
}

/// A copy of variables.
pub fn copy_variables(vars: &Variables) -> (copy: Variables)
    ensures
        variables_view(copy@) == variables_view(vars@),
{
    let mut copy: Variables = Vec::new();
    let mut i: usize = 0;
    assert(variables_view(copy@) =~= variables_view(vars@.take(0)));
    while i < vars.len()
        invariant
            i <= vars@.len(),
            variables_view(copy@) == variables_view(vars@.take(i as int)),
        decreases vars@.len() - i,
    {
        let entry = (String::from_str(vars[i].0.as_str()), vars[i].1.duplicate());
        proof {
            lemma_variables_view_push(copy@, entry);
            lemma_variables_view_push(vars@.take(i as int), vars@[i as int]);
            assert(vars@.take(i + 1) =~= vars@.take(i as int).push(vars@[i as int]));
        }
        copy.push(entry);
        i = i + 1;
    }
    assert(vars@.take(vars@.len() as int) =~= vars@);
    copy
}

/// Global variables with a page's own variables overriding them.
pub fn merge_variables(globals: &Variables, own: &Variables) -> (merged: Variables)
    ensures
        variables_view(merged@) == spec_merged_variables(globals@, own@),
{
    let mut merged = copy_variables(globals);
    let mut i: usize = own.len();
    assert(variables_view(own@.subrange(own@.len() as int, own@.len() as int)) =~= Map::empty());
    assert(variables_view(merged@) =~= variables_view(globals@).union_prefer_right(
        variables_view(own@.subrange(i as int, own@.len() as int)),
    ));
    // The first entry of a name is the one that counts, so the entries are set from the last.
    while i > 0
        invariant
            i <= own@.len(),
            variables_view(merged@) == variables_view(globals@).union_prefer_right(
                variables_view(own@.subrange(i as int, own@.len() as int)),
            ),
        decreases i,
    {
        i = i - 1;
        let ghost entry = own@[i as int];
        proof {
            assert(own@.subrange(i as int, own@.len() as int) =~= seq![entry] + own@.subrange(i + 1, own@.len() as int));
            lemma_variables_map_prepend(entry, own@.subrange(i + 1, own@.len() as int));
        }
        let value = own[i].1.duplicate();
        set_variable(&mut merged, String::from_str(own[i].0.as_str()), value);
        assert(variables_view(own@.subrange(i as int, own@.len() as int)) =~= variables_view(
            own@.subrange(i + 1, own@.len() as int),
        ).insert(entry.0@, value_view(entry.1)));
        assert(variables_view(merged@) =~= variables_view(globals@).union_prefer_right(
            variables_view(own@.subrange(i as int, own@.len() as int)),
        ));
    }
    assert(own@.subrange(0, own@.len() as int) =~= own@);
    merged
}

/// What a page is rendered with.
#[derive(Debug)]
pub struct RenderContext<'own> {
    /// Rendered page.
    pub rendered_page: &'own RenderedPage,
    /// Variables.
    pub variables: Variables,
    /// Socket.
    pub socket: Option<Socket>,
    /// URI path.
    pub uri_path: String,
    /// Original URI path.
    pub original_uri_path: Option<String>,
    /// Query: each name with its values.
    pub query: Option<Vec<(String, Vec<String>)>>,
    /// Last modified (seconds since the epoch).
    pub last_modified: Option<i64>,
    /// Whether JSON is wanted, and whether it may be given.
    pub is_json: (bool, bool),
    /// Renderer.
    pub renderer: Renderer,
    /// Configuration.
    pub configuration: &'own CredenceConfiguration,
}

impl RenderedPage {
    /// Split a page's text: the annotations to parse (with their format) and the content.
    ///
    /// The identifier names the page in messages about its annotations.
    pub fn split(identifier: &str, rendered_page_type: RenderedPageType, string: &str, configuration: &RenderConfiguration) -> (split: (
        Option<(Format, String)>,
        Option<String>,
    ))
        requires
            rendered_page_type is ContentWithEmbeddedAnnotations ==> spec_split_defined(
                configuration.annotations.start_delimiter@,
                configuration.annotations.end_delimiter@,
                string@,
            ),
        ensures
            ({
                let (annotations, content) = spec_parse(rendered_page_type, string@, configuration.annotations);
                &&& option_text(split.1) == content
                &&& match annotations {
                    Some((format, text)) => split.0 matches Some((f, t)) && f == format && t@ == text,
                    None => split.0 is None,
                }
            }),
    {
        match rendered_page_type {
            RenderedPageType::Annotations(format) => (Some((format, String::from_str(string))), None),
            RenderedPageType::ContentWithEmbeddedAnnotations => {
                let (annotations, content) = configuration.annotations.split(string);
                (annotations, Some(content))
            },
        }
    }

    /// The renderer of the page.
    pub fn renderer(&self, configuration: &RenderConfiguration) -> (renderer: Renderer)
        ensures
            renderer == page_renderer(self.annotations, *configuration),
    {
        match self.annotations.renderer {
            Some(renderer) => renderer,
            None => configuration.default_renderer,
        }
    }

    /// Get the title from the annotations or fall back to extracting it from the content.
    pub fn title(&self, configuration: &RenderConfiguration) -> (title: Result<Option<String>, u16>)
        ensures
            title is Ok <==> spec_site_title(*self, *configuration) is Ok,
            title matches Ok(t) ==> spec_site_title(*self, *configuration) == Ok::<Option<Seq<char>>, ()>(option_text(t)),
            title matches Err(status) ==> status == INTERNAL_SERVER_ERROR,
    {
        proof {
            reveal_strlit("title");
        }
        match get_variable(&self.annotations.values, "title") {
            Some(title) => Ok(display_value(title)),
            None => match &self.content {
                Some(content) => self.renderer(configuration).title_from_content(content.as_str()),
                None => Ok(None),
            },
        }
    }

    /// The headers with the annotations' headers set over them.
    pub fn merged_headers(&self) -> (merged: Result<Vec<(String, String)>, u16>)
        ensures
            merged is Ok <==> spec_set_string_values(headers_view(self.headers@), headers_view(self.annotations.headers@)) is Some,
            merged matches Ok(m) ==> spec_set_string_values(headers_view(self.headers@), headers_view(self.annotations.headers@))
                == Some(headers_view(m@)),
            merged matches Err(status) ==> status == INTERNAL_SERVER_ERROR,
    {
        set_string_values(&self.headers, &self.annotations.headers)
    }

    /// Create a [RenderContext]: the page's variables override the global ones.
    pub fn context<'own>(
        &'own self,
        socket: Option<Socket>,
        uri_path: String,
        original_uri_path: Option<String>,
        query: Option<Vec<(String, Vec<String>)>>,
        last_modified: Option<i64>,
        is_json: (bool, bool),
        configuration: &'own CredenceConfiguration,
    ) -> (context: RenderContext<'own>)
        ensures
            context.rendered_page == self,
            variables_view(context.variables@) == spec_merged_variables(configuration.render.variables@, self.annotations.values@),
            context.socket == socket,
            context.uri_path == uri_path,
            context.original_uri_path == original_uri_path,
            context.query == query,
            context.last_modified == last_modified,
            context.is_json == is_json,
            context.renderer == page_renderer(self.annotations, configuration.render),
            context.configuration == configuration,
    {
        let variables = merge_variables(&configuration.render.variables, &self.annotations.values);
        let renderer = self.renderer(&configuration.render);
        RenderContext {
            rendered_page: self,
            variables,
            socket,
            uri_path,
            original_uri_path,
            query,
            last_modified,
            is_json,
            renderer,
            configuration,
        }
    }
}

/// A page's own variables override the global ones: a name the page sets has the page's
/// value, any other name keeps its global value.
pub proof fn law_page_variables_override(globals: Seq<(String, Value)>, own: Seq<(String, Value)>, name: Seq<char>)
    ensures
        variables_view(own).contains_key(name) ==> spec_merged_variables(globals, own).contains_key(name)
            && spec_merged_variables(globals, own)[name] == variables_view(own)[name],
        !variables_view(own).contains_key(name) ==> (spec_merged_variables(globals, own).contains_key(name)
            <==> variables_view(globals).contains_key(name)),
        !variables_view(own).contains_key(name) && variables_view(globals).contains_key(name) ==> spec_merged_variables(
            globals,
            own,
        )[name] == variables_view(globals)[name],
{
}

// ----------------------------------------------------------------------------------------
// Preparing the variables
// ----------------------------------------------------------------------------------------

/// A text value.
pub open spec fn text_view(text: Seq<char>) -> ValueView {
    ValueView::Text(text)
}

/// A socket as a value: a map of "port", "tls" and "host".
pub open spec fn socket_view(socket: Socket) -> ValueView {
    ValueView::Mapping(
        seq![
            (text_view("port"@), ValueView::UnsignedInteger(socket.port as u64)),
            (text_view("tls"@), ValueView::Boolean(socket.tls)),
            (text_view("host"@), text_view(socket.host@)),
        ],
    )
}

/// A query as a value: a map of each name to the list of its values.
pub open spec fn query_view(query: Seq<(String, Vec<String>)>) -> ValueView {
    ValueView::Mapping(
        query.map_values(
            |entry: (String, Vec<String>)|
                (text_view(entry.0@), ValueView::List(entry.1@.map_values(|value: String| text_view(value@)))),
        ),
    )
}

impl Socket {
    /// The socket as a value.
    pub fn into(&self) -> (value: Value)
        ensures
            value_view(value) == socket_view(*self),
    {
        proof {
            reveal_strlit("port");
            reveal_strlit("tls");
            reveal_strlit("host");
        }
        let mut entries: Vec<(Value, Value)> = Vec::new();
        entries.push((Value::Text(String::from_str("port")), Value::UnsignedInteger(self.port as u64)));
        entries.push((Value::Text(String::from_str("tls")), Value::Boolean(self.tls)));
        entries.push((Value::Text(String::from_str("host")), Value::Text(String::from_str(self.host.as_str()))));
        let ghost e = entries@;
        assert(e.len() == 3);
        assert(value_view(e[0].0) == text_view("port"@));
        assert(value_view(e[1].0) == text_view("tls"@));
        assert(value_view(e[2].0) == text_view("host"@));
        assert(value_view(e[2].1) == text_view(self.host@));
        let value = Value::Mapping(entries);
        let ghost pairs = value_view(value)->Mapping_0;
        assert(pairs.len() == 3);
        assert(pairs[0] == (value_view(e[0].0), value_view(e[0].1)));
        assert(pairs[1] == (value_view(e[1].0), value_view(e[1].1)));
        assert(pairs[2] == (value_view(e[2].0), value_view(e[2].1)));
        assert(pairs =~= socket_view(*self)->Mapping_0);
        value
    }
}

/// A list of texts as a value.
fn texts_value(values: &Vec<String>) -> (value: Value)
    ensures
        value_view(value) == ValueView::List(values@.map_values(|v: String| text_view(v@))),
{
    let mut list: Vec<Value> = Vec::new();
    let mut i: usize = 0;
    while i < values.len()
        invariant
            i <= values@.len(),
            list@.len() == i,
            forall|j: int| 0 <= j < i ==> value_view(#[trigger] list@[j]) == text_view(values@[j]@),
        decreases values@.len() - i,
    {
        list.push(Value::Text(String::from_str(values[i].as_str())));
        i = i + 1;
    }
    let value = Value::List(list);
    assert(value_view(value)->List_0 =~= values@.map_values(|v: String| text_view(v@)));
    value
}

/// A query as a value: a map of each name to the list of its values.
pub fn query_map_to_variant(query: &Vec<(String, Vec<String>)>) -> (value: Value)
    ensures
        value_view(value) == query_view(query@),
{
    let mut entries: Vec<(Value, Value)> = Vec::new();
    let mut i: usize = 0;
    while i < query.len()
        invariant
            i <= query@.len(),
            entries@.len() == i,
            forall|j: int|
                0 <= j < i ==> (value_view((#[trigger] entries@[j]).0), value_view(entries@[j].1)) == (
                    text_view(query@[j].0@),
                    ValueView::List(query@[j].1@.map_values(|v: String| text_view(v@))),
                ),
        decreases query@.len() - i,
    {
        let values = texts_value(&query[i].1);
        entries.push((Value::Text(String::from_str(query[i].0.as_str())), values));
        i = i + 1;
    }
    let value = Value::Mapping(entries);
    assert(value_view(value)->Mapping_0 =~= query_view(query@)->Mapping_0);
    value
}

/// A query as a value: a map of each name to the list of its values.
pub fn query_map_to_value(query: &Vec<(String, Vec<String>)>) -> (value: Value)
    ensures
        value_view(value) == query_view(query@),
{
    query_map_to_variant(query)
}

/// The variables after the renderer prepares them: the content, rendered, unless the
/// "content" variable is set (`Err` when rendering fails).
pub open spec fn spec_renderer_prepare(variables: Map<Seq<char>, ValueView>, page: RenderedPage, renderer: Renderer) -> Result<Map<Seq<char>, ValueView>, ()> {
    if !variables.contains_key("content"@) {
        match page.content {
            Some(content) => match spec_render(renderer, content@) {
                Some(html) => Ok(variables.insert("content"@, text_view(html))),
                None => Err(()),
            },
            None => Ok(variables),
        }
    } else {
        Ok(variables)
    }
}

/// The "title" variable, unless set: the title the renderer finds in the content, else empty
/// (`Err` when the content cannot be read for it).
pub open spec fn spec_title_step(variables: Map<Seq<char>, ValueView>, page: RenderedPage, renderer: Renderer) -> Result<Map<Seq<char>, ValueView>, ()> {
    if variables.contains_key("title"@) {
        Ok(variables)
    } else {
        match page.content {
            Some(content) => match spec_renderer_title(renderer, content@) {
                Ok(Some(title)) => Ok(variables.insert("title"@, text_view(title))),
                Ok(None) => Ok(variables.insert("title"@, text_view(Seq::empty()))),
                Err(()) => Err(()),
            },
            None => Ok(variables.insert("title"@, text_view(Seq::empty()))),
        }
    }
}

/// A variable set to a value unless it is set or there is no value.
pub open spec fn set_unless_set(variables: Map<Seq<char>, ValueView>, name: Seq<char>, value: Option<ValueView>) -> Map<Seq<char>, ValueView> {
    match value {
        Some(value) => if variables.contains_key(name) {
            variables
        } else {
            variables.insert(name, value)
        },
        None => variables,
    }
}

/// An optional time as a value.
pub open spec fn time_view(time: Option<i64>) -> Option<ValueView> {
    match time {
        Some(time) => Some(ValueView::Integer(time)),
        None => None,
    }
}

/// The variables that the default preparation gives a page, in order: "socket", "content",
/// "title", "created", "updated", "path" (the original URI path, else empty) and "query"; each
/// only when not already set.
pub open spec fn spec_default_prepare(
    variables: Map<Seq<char>, ValueView>,
    page: RenderedPage,
    socket: Option<Socket>,
    original_uri_path: Option<String>,
    query: Option<Vec<(String, Vec<String>)>>,
    renderer: Renderer,
) -> Result<Map<Seq<char>, ValueView>, ()> {
    let with_socket = set_unless_set(
        variables,
        "socket"@,
        match socket {
            Some(socket) => Some(socket_view(socket)),
            None => None,
        },
    );
    match spec_renderer_prepare(with_socket, page, renderer) {
        Err(()) => Err(()),
        Ok(with_content) => match spec_title_step(with_content, page, renderer) {
            Err(()) => Err(()),
            Ok(with_title) => {
                let with_created = set_unless_set(with_title, "created"@, time_view(page.annotations.created));
                let with_updated = set_unless_set(with_created, "updated"@, time_view(page.annotations.updated));
                let path = match original_uri_path {
                    Some(path) => path@,
                    None => Seq::empty(),
                };
                let with_path = set_unless_set(with_updated, "path"@, Some(text_view(path)));
                Ok(
                    set_unless_set(
                        with_path,
                        "query"@,
                        match query {
                            Some(query) => Some(query_view(query@)),
                            None => None,
                        },
                    ),
                )
            },
        },
    }
}

impl Renderer {
    /// Prepare: render the content into the "content" variable, unless it is set.
    pub fn prepare<'own>(&self, context: &mut RenderContext<'own>) -> (result: Result<(), u16>)
        ensures
            result is Ok <==> spec_renderer_prepare(variables_view(old(context).variables@), *old(context).rendered_page, *self) is Ok,
            result is Ok ==> spec_renderer_prepare(variables_view(old(context).variables@), *old(context).rendered_page, *self)
                == Ok::<Map<Seq<char>, ValueView>, ()>(variables_view(final(context).variables@)),
            result matches Err(status) ==> status == INTERNAL_SERVER_ERROR,
            final(context).rendered_page == old(context).rendered_page,
            final(context).socket == old(context).socket,
            final(context).original_uri_path == old(context).original_uri_path,
            final(context).query == old(context).query,
            final(context).renderer == old(context).renderer,
    {
        proof {
            reveal_strlit("content");
        }
        if !contains_variable(&context.variables, "content") {
            match &context.rendered_page.content {
                Some(content) => {
                    let html = match self.render(content.as_str()) {
                        Ok(html) => html,
                        Err(status) => return Err(status),
                    };
                    set_variable(&mut context.variables, String::from_str("content"), Value::Text(html));
                },
                None => {},
            }
        }
        Ok(())
    }
}

/// The default preparation of a page's variables.
///
/// If the following variables are not already set, will set them:
///
/// * `socket`: the [Socket]
/// * `content`: will render it
/// * `title`: will extract it from the `content` (the first heading)
/// * `created`: will use the annotation if set
/// * `updated`: will use the annotation if set
/// * `path`: the original URI path
/// * `query`: the URI query
#[derive(Debug)]
pub struct DefaultRenderedPageHandler;

impl DefaultRenderedPageHandler {
    /// Prepare the context's variables.
    pub fn prepare<'own>(&self, context: &mut RenderContext<'own>) -> (result: Result<(), u16>)
        ensures
            result is Ok <==> spec_default_prepare(
                variables_view(old(context).variables@),
                *old(context).rendered_page,
                old(context).socket,
                old(context).original_uri_path,
                old(context).query,
                old(context).renderer,
            ) is Ok,
            result is Ok ==> spec_default_prepare(
                variables_view(old(context).variables@),
                *old(context).rendered_page,
                old(context).socket,
                old(context).original_uri_path,
                old(context).query,
                old(context).renderer,
            ) == Ok::<Map<Seq<char>, ValueView>, ()>(variables_view(final(context).variables@)),
            result matches Err(status) ==> status == INTERNAL_SERVER_ERROR,
    {
        proof {
            reveal_strlit("socket");
            reveal_strlit("title");
            reveal_strlit("created");
            reveal_strlit("updated");
            reveal_strlit("path");
            reveal_strlit("query");
        }
        if !contains_variable(&context.variables, "socket") {
            match &context.socket {
                Some(socket) => {
                    let value = socket.into();
                    set_variable(&mut context.variables, String::from_str("socket"), value);
                },
                None => {},
            }
        }
        let renderer = context.renderer;
        match renderer.prepare(context) {
            Ok(()) => {},
            Err(status) => return Err(status),
        }
        if !contains_variable(&context.variables, "title") {
            let title = match &context.rendered_page.content {
                Some(content) => match renderer.title_from_content(content.as_str()) {
                    Ok(Some(title)) => title,
                    Ok(None) => String::new(),
                    Err(status) => return Err(status),
                },
                None => String::new(),
            };
            set_variable(&mut context.variables, String::from_str("title"), Value::Text(title));
        }
        if !contains_variable(&context.variables, "created") {
            match context.rendered_page.annotations.created {
                Some(created) => set_variable(&mut context.variables, String::from_str("created"), Value::Integer(created)),
                None => {},
            }
        }
        if !contains_variable(&context.variables, "updated") {
            match context.rendered_page.annotations.updated {
                Some(updated) => set_variable(&mut context.variables, String::from_str("updated"), Value::Integer(updated)),
                None => {},
            }
        }
        if !contains_variable(&context.variables, "path") {
            let path = match &context.original_uri_path {
                Some(path) => String::from_str(path.as_str()),
                None => String::new(),
            };
            set_variable(&mut context.variables, String::from_str("path"), Value::Text(path));
        }
        if !contains_variable(&context.variables, "query") {
            match &context.query {
                Some(query) => {
                    let value = query_map_to_variant(query);
                    set_variable(&mut context.variables, String::from_str("query"), value);
                },
                None => {},
            }
        }
        Ok(())
    }
}

/// The default preparation only adds variables: every variable already set keeps its value.
pub proof fn law_prepare_keeps_set_variables(
    variables: Map<Seq<char>, ValueView>,
    page: RenderedPage,
    socket: Option<Socket>,
    original_uri_path: Option<String>,
    query: Option<Vec<(String, Vec<String>)>>,
    renderer: Renderer,
    name: Seq<char>,
)
    requires
        variables.contains_key(name),
        spec_default_prepare(variables, page, socket, original_uri_path, query, renderer) is Ok,
    ensures
        spec_default_prepare(variables, page, socket, original_uri_path, query, renderer)->Ok_0.contains_key(name),
        spec_default_prepare(variables, page, socket, original_uri_path, query, renderer)->Ok_0[name] == variables[name],
{
}

} // verus!
