//! Annotations of rendered pages, and their separation from content.
use vstd::prelude::*;

use crate::configuration::annotations::AnnotationsConfiguration;
use crate::configuration::render::RenderConfiguration;
use crate::escape::{escaped_split, escaped_split_defined, escaped_split_defined_exec, replace_all, split_once_ignore_escaped, unescape};
use crate::format::{format_from_str, spec_format_from_str, Format};
use crate::text::{chars_of, find, find_exec, lemma_find_from, slice_chars, starts_with, starts_with_exec, string_of};
use crate::headers::headers_view;
use crate::parsing::{parse_annotation_value, parsed_annotation_value};
use crate::text::str_eq;
use crate::time::{all_digits, digits_value, rfc3339_utc_timestamp, zone_offset_overflows, zone_offset_overflows_exec, ParseDateTime};
use crate::value::{set_variable, value_view, variables_map, variables_view, Value, ValueView, Variables};
use super::renderer::spec_renderer_from_str;
use super::renderer::Renderer;

verus! {

/// Annotations.
#[derive(Debug)]
pub struct Annotations {
    /// Created (seconds since the epoch).
    pub created: Option<i64>,
    /// Updated (seconds since the epoch).
    pub updated: Option<i64>,
    /// Renderer.
    pub renderer: Option<Renderer>,
    /// Template.
    pub template: Option<String>,
    /// Values.
    pub values: Variables,
    /// Headers.
    pub headers: Vec<(String, String)>,
    /// Other.
    pub other: Variables,
}

impl Default for Annotations {
    fn default() -> (annotations: Self)
        ensures
            annotations.created is None,
            annotations.updated is None,
            annotations.renderer is None,
            annotations.template is None,
            annotations.values@.len() == 0,
            annotations.headers@.len() == 0,
            annotations.other@.len() == 0,
            annotations_view(annotations) == empty_annotations_view(),
    {
        let annotations = Annotations {
            created: None,
            updated: None,
            renderer: None,
            template: None,
            values: Vec::new(),
            headers: Vec::new(),
            other: Vec::new(),
        };
        proof {
            assert(variables_map(annotations.other@) =~= Map::empty());
            assert(annotations_view(annotations) =~= empty_annotations_view());
        }
        annotations
    }
}

impl Annotations {
    /// Renderer: the annotated one, else the configured default.
    pub fn renderer(&self, configuration: &RenderConfiguration) -> (renderer: Renderer)
        ensures
            renderer == match self.renderer {
                Some(r) => r,
                None => configuration.default_renderer,
            },
    {
        match self.renderer {
            Some(renderer) => renderer,
            None => configuration.default_renderer,
        }
    }

    /// Template: the annotated one, else the configured default.
    pub fn template<'own>(&'own self, configuration: &'own RenderConfiguration) -> (template: &'own str)
        ensures
            template@ == match self.template {
                Some(t) => t@,
                None => configuration.default_template@,
            },
    {
        match &self.template {
            Some(template) => template.as_str(),
            None => configuration.default_template.as_str(),
        }
    }
}

/// The annotations separated from content: when the content begins with the start delimiter
/// and the scan of `escaped_split` finds an unescaped end delimiter after it, the text between
/// them (with escaped end delimiters unescaped) holds the annotations, in the format named on
/// its first line if that line names one (the line is then dropped), else in the default
/// format; the content is what follows the end delimiter. Otherwise there are no annotations and the content is unchanged.
pub open spec fn spec_split(
    start_delimiter: Seq<char>,
    end_delimiter: Seq<char>,
    default_format: Format,
    content: Seq<char>,
) -> (Option<(Format, Seq<char>)>, Seq<char>) {
    if starts_with(content, start_delimiter) {
        match escaped_split(content.subrange(start_delimiter.len() as int, content.len() as int), end_delimiter) {
            Some((properties, rest)) => {
                let annotations = replace_all(properties, seq!['\\'] + end_delimiter, end_delimiter);
                match find(annotations, seq!['\n']) {
                    Some(newline) => {
                        let format = match spec_format_from_str(annotations.subrange(0, newline)) {
                            Some(format) => format,
                            None => default_format,
                        };
                        (Some((format, annotations.subrange(newline + 1, annotations.len() as int))), rest)
                    },
                    None => (Some((default_format, annotations)), rest),
                }
            },
            None => (None, content),
        }
    } else {
        (None, content)
    }
}

/// Whether splitting the content runs without panicking: when the content begins with the
/// start delimiter, the search for the end delimiter in what follows does.
pub open spec fn spec_split_defined(start_delimiter: Seq<char>, end_delimiter: Seq<char>, content: Seq<char>) -> bool {
    starts_with(content, start_delimiter) ==> escaped_split_defined(
        content.subrange(start_delimiter.len() as int, content.len() as int),
        end_delimiter,
    )
}

impl AnnotationsConfiguration {
    /// Whether `split` can split the content (where it cannot, the search for the end
    /// delimiter would slice inside a character, or the end delimiter is empty).
    pub fn can_split(&self, content: &str) -> (can: bool)
        ensures
            can == spec_split_defined(self.start_delimiter@, self.end_delimiter@, content@),
    {
        let v = chars_of(content);
        let start = chars_of(self.start_delimiter.as_str());
        if starts_with_exec(&v, &start) {
            let after_start = string_of(&slice_chars(&v, start.len(), v.len()));
            escaped_split_defined_exec(after_start.as_str(), self.end_delimiter.as_str())
        } else {
            true
        }
    }

    /// Split annotations from content: the format and text of the annotations, if any, and the
    /// content that follows them.
    pub fn split(&self, content: &str) -> (split: (Option<(Format, String)>, String))
        requires
            spec_split_defined(self.start_delimiter@, self.end_delimiter@, content@),
        ensures
            ({
                let (annotations, rest) = spec_split(
                    self.start_delimiter@,
                    self.end_delimiter@,
                    self.default_format,
                    content@,
                );
                &&& rest == split.1@
                &&& match annotations {
                    Some((format, text)) => split.0 matches Some((f, t)) && f == format && t@ == text,
                    None => split.0 is None,
                }
            }),
    {
        let v = chars_of(content);
        let start = chars_of(self.start_delimiter.as_str());
        if starts_with_exec(&v, &start) {
            let after_start = slice_chars(&v, start.len(), v.len());
            let after_start = string_of(&after_start);
            match split_once_ignore_escaped(after_start.as_str(), self.end_delimiter.as_str()) {
                Some((properties, rest)) => {
                    let annotations = unescape(properties.as_str(), self.end_delimiter.as_str());
                    let a = chars_of(annotations.as_str());
                    let newline = ['\n'];
                    assert(newline@ =~= seq!['\n']);
                    proof {
                        lemma_find_from(a@, seq!['\n'], 0);
                    }
                    match find_exec(&a, &newline) {
                        Some(i) => {
                            proof {
                                lemma_find_from(a@, seq!['\n'], 0);
                            }
                            assert(i < a.len());
                            let first_line = string_of(&slice_chars(&a, 0, i));
                            let format = match format_from_str(first_line.as_str()) {
                                Some(format) => format,
                                None => self.default_format,
                            };
                            let text = string_of(&slice_chars(&a, i + 1, a.len()));
                            (Some((format, text)), rest)
                        },
                        None => (Some((self.default_format, annotations)), rest),
                    }
                },
                None => (None, String::from_str(content)),
            }
        } else {
            (None, String::from_str(content))
        }
    }
}

/// Annotations as plain values.
#[verifier::ext_equal]
pub struct AnnotationsView {
    /// Created (seconds since the epoch).
    pub created: Option<i64>,
    /// Updated (seconds since the epoch).
    pub updated: Option<i64>,
    /// Renderer.
    pub renderer: Option<Renderer>,
    /// Template.
    pub template: Option<Seq<char>>,
    /// Values, in the order given.
    pub values: Seq<(Seq<char>, ValueView)>,
    /// Headers, in the order given.
    pub headers: Seq<(Seq<char>, Seq<char>)>,
    /// Other annotations, by name.
    pub other: Map<Seq<char>, ValueView>,
}

/// What annotations hold, as plain values.
pub open spec fn annotations_view(annotations: Annotations) -> AnnotationsView {
    AnnotationsView {
        created: annotations.created,
        updated: annotations.updated,
        renderer: annotations.renderer,
        template: match annotations.template {
            Some(template) => Some(template@),
            None => None,
        },
        values: annotations.values@.map_values(|pair: (String, Value)| (pair.0@, value_view(pair.1))),
        headers: headers_view(annotations.headers@),
        other: variables_view(annotations.other@),
    }
}

/// No annotations.
pub open spec fn empty_annotations_view() -> AnnotationsView {
    AnnotationsView {
        created: None,
        updated: None,
        renderer: None,
        template: None,
        values: Seq::empty(),
        headers: Seq::empty(),
        other: Map::empty(),
    }
}

/// The entries of a map whose keys are all text, with the keys as text; `None` for a value
/// that is not a map or a key that is not text.
pub open spec fn mapping_text_pairs(value: ValueView) -> Option<Seq<(Seq<char>, ValueView)>> {
    match value {
        ValueView::Mapping(entries) => if forall|i: int| 0 <= i < entries.len() ==> (#[trigger] entries[i]).0 is Text {
            Some(entries.map_values(|entry: (ValueView, ValueView)| (entry.0->Text_0, entry.1)))
        } else {
            None
        },
        _ => None,
    }
}

/// The entries of a map whose keys and values are all text, as text pairs; `None` otherwise.
pub open spec fn mapping_text_headers(value: ValueView) -> Option<Seq<(Seq<char>, Seq<char>)>> {
    match value {
        ValueView::Mapping(entries) => if forall|i: int|
            0 <= i < entries.len() ==> (#[trigger] entries[i]).0 is Text && entries[i].1 is Text {
            Some(entries.map_values(|entry: (ValueView, ValueView)| (entry.0->Text_0, entry.1->Text_0)))
        } else {
            None
        },
        _ => None,
    }
}

/// One annotation applied: "created" and "updated" take the time read from their text,
/// "renderer" the renderer it names, "template" its text, "values" a map with text keys,
/// "headers" adds a map of text to text; any other name is kept among the other annotations.
/// `None` when a key is not text or a known annotation is not of its kind (or its time or
/// renderer cannot be read).
pub open spec fn resolve_entry(acc: AnnotationsView, key: ValueView, value: ValueView, date: Option<i64>) -> Option<AnnotationsView> {
    match key {
        ValueView::Text(name) => if name == "created"@ {
            if value is Text && date is Some {
                Some(AnnotationsView { created: date, ..acc })
            } else {
                None
            }
        } else if name == "updated"@ {
            if value is Text && date is Some {
                Some(AnnotationsView { updated: date, ..acc })
            } else {
                None
            }
        } else if name == "renderer"@ {
            match value {
                ValueView::Text(text) => match spec_renderer_from_str(text) {
                    Some(renderer) => Some(AnnotationsView { renderer: Some(renderer), ..acc }),
                    None => None,
                },
                _ => None,
            }
        } else if name == "template"@ {
            match value {
                ValueView::Text(text) => Some(AnnotationsView { template: Some(text), ..acc }),
                _ => None,
            }
        } else if name == "values"@ {
            match mapping_text_pairs(value) {
                Some(pairs) => Some(AnnotationsView { values: pairs, ..acc }),
                None => None,
            }
        } else if name == "headers"@ {
            match mapping_text_headers(value) {
                Some(headers) => Some(AnnotationsView { headers: acc.headers + headers, ..acc }),
                None => None,
            }
        } else {
            Some(AnnotationsView { other: acc.other.insert(name, value), ..acc })
        },
        _ => None,
    }
}

/// The time read for the entry at an index, if any.
pub open spec fn date_at(dates: Seq<Option<i64>>, i: int) -> Option<i64> {
    if 0 <= i < dates.len() {
        dates[i]
    } else {
        None
    }
}

/// The first `n` entries applied in order, from no annotations.
pub open spec fn resolve_entries(entries: Seq<(ValueView, ValueView)>, dates: Seq<Option<i64>>, n: nat) -> Option<AnnotationsView>
    decreases n,
{
    if n == 0 {
        Some(empty_annotations_view())
    } else {
        match resolve_entries(entries, dates, (n - 1) as nat) {
            Some(acc) => resolve_entry(acc, entries[n - 1].0, entries[n - 1].1, date_at(dates, n - 1)),
            None => None,
        }
    }
}

/// The annotations that a value resolves to, given the time read from each entry's text:
/// the value must be a map, whose entries are applied in order.
pub open spec fn spec_resolve_annotations(value: ValueView, dates: Seq<Option<i64>>) -> Option<AnnotationsView> {
    match value {
        ValueView::Mapping(entries) => resolve_entries(entries, dates, entries.len()),
        _ => None,
    }
}

/// What holds of the time read from a text whatever the machine's time zone and date are
/// (see `ParseDateTime::parse`).
pub open spec fn date_read_from(text: Seq<char>, date: Option<i64>) -> bool {
    &&& text.len() == 0 ==> date is None
    &&& all_digits(text) && text.len() == 10 ==> date == Some(digits_value(text) as i64)
    &&& all_digits(text) && text.len() == 13 ==> date == Some((digits_value(text) / 1000) as i64)
    &&& rfc3339_utc_timestamp(text) matches Some(t) ==> date == Some(t as i64)
}

/// Times, one for each entry of a map, each of a "created" or "updated" entry with text
/// read from that text.
pub open spec fn dates_fit(value: ValueView, dates: Seq<Option<i64>>) -> bool {
    match value {
        ValueView::Mapping(entries) => {
            &&& dates.len() == entries.len()
            &&& forall|i: int|
                0 <= i < entries.len() ==> match (#[trigger] entries[i]).0 {
                    ValueView::Text(name) => (name == "created"@ || name == "updated"@) ==> match entries[i].1 {
                        ValueView::Text(text) => date_read_from(text, dates[i]),
                        _ => true,
                    },
                    _ => true,
                }
        },
        _ => true,
    }
}

/// Whether a result of resolution is the resolution stated.
pub open spec fn resolved_as(stated: Option<AnnotationsView>, annotations: Option<Annotations>) -> bool {
    match stated {
        Some(view) => annotations matches Some(a) && annotations_view(a) == view,
        None => annotations is None,
    }
}

/// The index of the last of the first `n` entries whose key is the text `name`.
pub open spec fn last_entry_named(entries: Seq<(ValueView, ValueView)>, name: Seq<char>, n: nat) -> Option<int>
    decreases n,
{
    if n == 0 {
        None
    } else if entries[n - 1].0 == ValueView::Text(name) {
        Some(n - 1)
    } else {
        last_entry_named(entries, name, (n - 1) as nat)
    }
}

/// The time an entry's text was read as, when its key is the text `name`; none otherwise.
pub open spec fn time_of_last(entries: Seq<(ValueView, ValueView)>, name: Seq<char>, dates: Seq<Option<i64>>, n: nat) -> Option<i64> {
    match last_entry_named(entries, name, n) {
        Some(i) => date_at(dates, i),
        None => None,
    }
}

/// Resolving the first `n` entries sets the creation time to the time read from the last
/// "created" entry and the update time to the time read from the last "updated" entry (none
/// without such an entry): the two never take each other's time.
proof fn lemma_resolved_times(entries: Seq<(ValueView, ValueView)>, dates: Seq<Option<i64>>, n: nat)
    requires
        n <= entries.len(),
    ensures
        resolve_entries(entries, dates, n) matches Some(v) ==> v.created == time_of_last(entries, "created"@, dates, n)
            && v.updated == time_of_last(entries, "updated"@, dates, n),
    decreases n,
{
    reveal_strlit("created");
    reveal_strlit("updated");
    reveal_strlit("renderer");
    reveal_strlit("template");
    reveal_strlit("values");
    reveal_strlit("headers");
    if n > 0 {
        lemma_resolved_times(entries, dates, (n - 1) as nat);
        assert("created"@[0] == 'c' && "updated"@[0] == 'u');
        assert("created"@ != "updated"@);
        let key = entries[n - 1].0;
        let value = entries[n - 1].1;
        let date = date_at(dates, n - 1);
        match resolve_entries(entries, dates, (n - 1) as nat) {
            Some(acc) => {
                let step = resolve_entry(acc, key, value, date);
                assert(resolve_entries(entries, dates, n) == step);
                if step is Some {
                    match key {
                        ValueView::Text(name) => {
                            if name == "created"@ {
                                assert(last_entry_named(entries, "created"@, n) == Some(n - 1));
                                assert(key != ValueView::Text("updated"@));
                                assert(last_entry_named(entries, "updated"@, n) == last_entry_named(entries, "updated"@, (n - 1) as nat));
                            } else if name == "updated"@ {
                                assert(last_entry_named(entries, "updated"@, n) == Some(n - 1));
                                assert(key != ValueView::Text("created"@));
                                assert(last_entry_named(entries, "created"@, n) == last_entry_named(entries, "created"@, (n - 1) as nat));
                            } else {
                                assert(key != ValueView::Text("created"@));
                                assert(key != ValueView::Text("updated"@));
                                assert(last_entry_named(entries, "created"@, n) == last_entry_named(entries, "created"@, (n - 1) as nat));
                                assert(last_entry_named(entries, "updated"@, n) == last_entry_named(entries, "updated"@, (n - 1) as nat));
                            }
                        },
                        _ => {},
                    }
                }
            },
            None => {},
        }
    }
}

/// Resolving a map of annotations gives `created` the time read from its "created" entry and
/// `updated` the time read from its "updated" entry (the last of each, if given twice), and
/// neither when the map has no such entry.
pub proof fn law_resolved_times(entries: Seq<(ValueView, ValueView)>, dates: Seq<Option<i64>>)
    ensures
        spec_resolve_annotations(ValueView::Mapping(entries), dates) matches Some(v) ==> {
            &&& v.created == time_of_last(entries, "created"@, dates, entries.len())
            &&& v.updated == time_of_last(entries, "updated"@, dates, entries.len())
        },
{
    lemma_resolved_times(entries, dates, entries.len());
}

/// Once an entry fails, the resolution fails.
pub proof fn lemma_resolve_entries_fails(entries: Seq<(ValueView, ValueView)>, dates: Seq<Option<i64>>, n: nat, m: nat)
    requires
        n <= m,
        resolve_entries(entries, dates, n) is None,
    ensures
        resolve_entries(entries, dates, m) is None,
    decreases m - n,
{
    if n < m {
        lemma_resolve_entries_fails(entries, dates, n, (m - 1) as nat);
    }
}

/// The entries of a map whose keys are all text, with the keys as text.
pub fn text_pairs(value: &Value) -> (pairs: Option<Vec<(String, Value)>>)
    ensures
        match mapping_text_pairs(value_view(*value)) {
            Some(stated) => pairs matches Some(p) && p@.map_values(|pair: (String, Value)| (pair.0@, value_view(pair.1))) == stated,
            None => pairs is None,
        },
{
    match value {
        Value::Mapping(entries) => {
            let ghost view = value_view(*value)->Mapping_0;
            assert(view.len() == entries@.len());
            let mut pairs: Vec<(String, Value)> = Vec::new();
            let mut i: usize = 0;
            while i < entries.len()
                invariant
                    view == value_view(*value)->Mapping_0,
                    *value == Value::Mapping(*entries),
                    view.len() == entries@.len(),
                    i <= entries@.len(),
                    pairs@.len() == i,
                    forall|k: int| 0 <= k < i ==> view[k].0 is Text,
                    forall|k: int| 0 <= k < i ==> (#[trigger] pairs@[k]).0@ == view[k].0->Text_0 && value_view(pairs@[k].1) == view[k].1,
                decreases entries@.len() - i,
            {
                assert(view[i as int] == (value_view(entries@[i as int].0), value_view(entries@[i as int].1)));
                match &entries[i].0 {
                    Value::Text(key) => {
                        let item = entries[i].1.duplicate();
                        pairs.push((String::from_str(key.as_str()), item));
                    },
                    _ => {
                        return None;
                    },
                }
                i = i + 1;
            }
            let ghost mapped = pairs@.map_values(|pair: (String, Value)| (pair.0@, value_view(pair.1)));
            assert(mapped =~= view.map_values(|entry: (ValueView, ValueView)| (entry.0->Text_0, entry.1)));
            Some(pairs)
        },
        _ => None,
    }
}

/// The entries of a map whose keys and values are all text, as text pairs.
pub fn text_headers(value: &Value) -> (headers: Option<Vec<(String, String)>>)
    ensures
        match mapping_text_headers(value_view(*value)) {
            Some(stated) => headers matches Some(h) && headers_view(h@) == stated,
            None => headers is None,
        },
{
    match value {
        Value::Mapping(entries) => {
            let ghost view = value_view(*value)->Mapping_0;
            assert(view.len() == entries@.len());
            let mut headers: Vec<(String, String)> = Vec::new();
            let mut i: usize = 0;
            while i < entries.len()
                invariant
                    view == value_view(*value)->Mapping_0,
                    *value == Value::Mapping(*entries),
                    view.len() == entries@.len(),
                    i <= entries@.len(),
                    headers@.len() == i,
                    forall|k: int| 0 <= k < i ==> view[k].0 is Text && view[k].1 is Text,
                    forall|k: int| 0 <= k < i ==> (#[trigger] headers@[k]).0@ == view[k].0->Text_0 && headers@[k].1@ == view[k].1->Text_0,
                decreases entries@.len() - i,
            {
                assert(view[i as int] == (value_view(entries@[i as int].0), value_view(entries@[i as int].1)));
                match (&entries[i].0, &entries[i].1) {
                    (Value::Text(name), Value::Text(text)) => {
                        headers.push((String::from_str(name.as_str()), String::from_str(text.as_str())));
                    },
                    _ => {
                        return None;
                    },
                }
                i = i + 1;
            }
            assert(headers_view(headers@) =~= view.map_values(|entry: (ValueView, ValueView)| (entry.0->Text_0, entry.1->Text_0)));
            Some(headers)
        },
        _ => None,
    }
}

/// Resolve annotations from a value, given the time read from each entry's text.
pub fn resolve_annotations_with(value: &Value, dates: &Vec<Option<i64>>) -> (annotations: Option<Annotations>)
    ensures
        resolved_as(spec_resolve_annotations(value_view(*value), dates@), annotations),
{
    proof {
        reveal_strlit("created");
        reveal_strlit("updated");
        reveal_strlit("renderer");
        reveal_strlit("template");
        reveal_strlit("values");
        reveal_strlit("headers");
    }
    match value {
        Value::Mapping(entries) => {
            let ghost view = value_view(*value)->Mapping_0;
            assert(view.len() == entries@.len());
            let mut annotations = Annotations::default();
            let mut i: usize = 0;
            while i < entries.len()
                invariant
                    view == value_view(*value)->Mapping_0,
                    *value == Value::Mapping(*entries),
                    view.len() == entries@.len(),
                    i <= entries@.len(),
                    resolve_entries(view, dates@, i as nat) == Some(annotations_view(annotations)),
                decreases entries@.len() - i,
            {
                let ghost acc = annotations_view(annotations);
                assert(view[i as int] == (value_view(entries@[i as int].0), value_view(entries@[i as int].1)));
                let ghost stated = resolve_entries(view, dates@, (i + 1) as nat);
                assert(stated == resolve_entry(acc, view[i as int].0, view[i as int].1, date_at(dates@, i as int)));
                let date = if i < dates.len() {
                    dates[i]
                } else {
                    None
                };
                let item = &entries[i].1;
                let failed = match &entries[i].0 {
                    Value::Text(name) => {
                        let name = name.as_str();
                        if str_eq(name, "created") {
                            match (item, date) {
                                (Value::Text(_), Some(time)) => {
                                    annotations.created = Some(time);
                                    false
                                },
                                _ => true,
                            }
                        } else if str_eq(name, "updated") {
                            match (item, date) {
                                (Value::Text(_), Some(time)) => {
                                    annotations.updated = Some(time);
                                    false
                                },
                                _ => true,
                            }
                        } else if str_eq(name, "renderer") {
                            match item {
                                Value::Text(text) => match Renderer::from_str(text.as_str()) {
                                    Ok(renderer) => {
                                        annotations.renderer = Some(renderer);
                                        false
                                    },
                                    Err(_) => true,
                                },
                                _ => true,
                            }
                        } else if str_eq(name, "template") {
                            match item {
                                Value::Text(text) => {
                                    annotations.template = Some(String::from_str(text.as_str()));
                                    false
                                },
                                _ => true,
                            }
                        } else if str_eq(name, "values") {
                            match text_pairs(item) {
                                Some(pairs) => {
                                    annotations.values = pairs;
                                    false
                                },
                                None => true,
                            }
                        } else if str_eq(name, "headers") {
                            match text_headers(item) {
                                Some(headers) => {
                                    let ghost before = annotations.headers@;
                                    let ghost snapshot = annotations_view(annotations);
                                    let mut k: usize = 0;
                                    while k < headers.len()
                                        invariant
                                            annotations_view(annotations) == (AnnotationsView { headers: annotations_view(annotations).headers, ..snapshot }),
                                            k <= headers@.len(),
                                            headers_view(annotations.headers@) == headers_view(before) + headers_view(headers@).take(k as int),
                                        decreases headers@.len() - k,
                                    {
                                        let header = (String::from_str(headers[k].0.as_str()), String::from_str(headers[k].1.as_str()));
                                        let ghost prev = annotations.headers@;
                                        let ghost pushed = header;
                                        annotations.headers.push(header);
                                        assert(annotations.headers@ =~= prev.push(pushed));
                                        assert(headers_view(prev.push(pushed)) =~= headers_view(prev).push((pushed.0@, pushed.1@)));
                                        assert(headers_view(headers@).take(k as int + 1) =~= headers_view(headers@).take(k as int).push(
                                            (headers@[k as int].0@, headers@[k as int].1@),
                                        ));
                                        assert(headers_view(annotations.headers@) =~= headers_view(before) + headers_view(headers@).take(k as int + 1));
                                        k = k + 1;
                                    }
                                    assert(headers_view(headers@).take(headers@.len() as int) =~= headers_view(headers@));
                                    false
                                },
                                None => true,
                            }
                        } else {
                            set_variable(&mut annotations.other, String::from_str(name), item.duplicate());
                            false
                        }
                    },
                    _ => true,
                };
                if failed {
                    proof {
                        lemma_resolve_entries_fails(view, dates@, (i + 1) as nat, view.len());
                    }
                    return None;
                }
                assert(annotations_view(annotations) =~= stated->Some_0);
                i = i + 1;
            }
            Some(annotations)
        },
        _ => None,
    }
}

/// Whether the times of a map's "created" and "updated" entries can be read without the
/// parser panicking: none of their texts ends in a zone offset of a day or more.
pub open spec fn dates_parse_safely(value: ValueView) -> bool {
    match value {
        ValueView::Mapping(entries) => forall|i: int|
            0 <= i < entries.len() ==> match (#[trigger] entries[i]).0 {
                ValueView::Text(name) => (name == "created"@ || name == "updated"@) ==> match entries[i].1 {
                    ValueView::Text(text) => !zone_offset_overflows(text),
                    _ => true,
                },
                _ => true,
            },
        _ => true,
    }
}

/// Whether the times of a value's "created" and "updated" entries can be read.
pub fn dates_parse_safely_exec(value: &Value) -> (safe: bool)
    ensures
        safe == dates_parse_safely(value_view(*value)),
{
    proof {
        reveal_strlit("created");
        reveal_strlit("updated");
    }
    match value {
        Value::Mapping(entries) => {
            let ghost view = value_view(*value)->Mapping_0;
            assert(view.len() == entries@.len());
            let mut i: usize = 0;
            while i < entries.len()
                invariant
                    view == value_view(*value)->Mapping_0,
                    *value == Value::Mapping(*entries),
                    view.len() == entries@.len(),
                    i <= entries@.len(),
                    forall|k: int|
                        0 <= k < i ==> match (#[trigger] view[k]).0 {
                            ValueView::Text(name) => (name == "created"@ || name == "updated"@) ==> match view[k].1 {
                                ValueView::Text(text) => !zone_offset_overflows(text),
                                _ => true,
                            },
                            _ => true,
                        },
                decreases entries@.len() - i,
            {
                assert(view[i as int] == (value_view(entries@[i as int].0), value_view(entries@[i as int].1)));
                match (&entries[i].0, &entries[i].1) {
                    (Value::Text(name), Value::Text(text)) => {
                        if (str_eq(name.as_str(), "created") || str_eq(name.as_str(), "updated")) && zone_offset_overflows_exec(text.as_str()) {
                            return false;
                        }
                    },
                    _ => {},
                }
                i = i + 1;
            }
            true
        },
        _ => true,
    }
}

/// The time read from each entry of a map: from the text of a "created" or "updated" entry,
/// none for the others.
fn entry_dates(value: &Value) -> (dates: Vec<Option<i64>>)
    requires
        dates_parse_safely(value_view(*value)),
    ensures
        dates_fit(value_view(*value), dates@),
{
    proof {
        reveal_strlit("created");
        reveal_strlit("updated");
    }
    let mut dates: Vec<Option<i64>> = Vec::new();
    match value {
        Value::Mapping(entries) => {
            let ghost view = value_view(*value)->Mapping_0;
            assert(view.len() == entries@.len());
            let mut i: usize = 0;
            while i < entries.len()
                invariant
                    view == value_view(*value)->Mapping_0,
                    *value == Value::Mapping(*entries),
                    view.len() == entries@.len(),
                    i <= entries@.len(),
                    dates@.len() == i,
                    dates_parse_safely(value_view(*value)),
                    forall|k: int|
                        0 <= k < i ==> match (#[trigger] view[k]).0 {
                            ValueView::Text(name) => (name == "created"@ || name == "updated"@) ==> match view[k].1 {
                                ValueView::Text(text) => date_read_from(text, dates@[k]),
                                _ => true,
                            },
                            _ => true,
                        },
                decreases entries@.len() - i,
            {
                assert(view[i as int] == (value_view(entries@[i as int].0), value_view(entries@[i as int].1)));
                let date = match (&entries[i].0, &entries[i].1) {
                    (Value::Text(name), Value::Text(text)) => if str_eq(name.as_str(), "created") || str_eq(name.as_str(), "updated") {
                        ParseDateTime::parse(text.as_str())
                    } else {
                        None
                    },
                    _ => None,
                };
                dates.push(date);
                i = i + 1;
            }
        },
        _ => {},
    }
    dates
}

/// Resolve annotations from a parsed value; `None` when it is not a map, a key is not text,
/// or a known annotation is not of its kind. The times of "created" and "updated" are read
/// with `ParseDateTime::parse`, whose result depends on the machine's time zone and date for
/// most forms: what holds of every outcome is stated. A time ending in a zone offset of a day
/// or more would make the parser panic, so such values are left out.
pub fn resolve_annotations(value: &Value) -> (annotations: Option<Annotations>)
    requires
        dates_parse_safely(value_view(*value)),
    ensures
        exists|dates: Seq<Option<i64>>|
            dates_fit(value_view(*value), dates) && resolved_as(spec_resolve_annotations(value_view(*value), dates), annotations),
{
    let dates = entry_dates(value);
    let annotations = resolve_annotations_with(value, &dates);
    assert(dates_fit(value_view(*value), dates@) && resolved_as(spec_resolve_annotations(value_view(*value), dates@), annotations));
    annotations
}

/// The annotations that parsed text holds: what its value resolves to, or no annotations when
/// the text does not parse or does not resolve.
pub open spec fn parsed_annotations(parsed: Option<ValueView>, dates: Seq<Option<i64>>) -> AnnotationsView {
    match parsed {
        Some(value) => match spec_resolve_annotations(value, dates) {
            Some(annotations) => annotations,
            None => empty_annotations_view(),
        },
        None => empty_annotations_view(),
    }
}

impl Annotations {
    /// Parse annotations from their text in a format: no annotations when the text does not
    /// parse, or does not resolve. A time ending in a zone offset of a day or more would make
    /// the time parser panic, so such texts are left out (see `parse_checked`).
    pub fn parse(representation: &str, format: Format) -> (annotations: Annotations)
        requires
            match parsed_annotation_value(format, representation@) {
                Some(value) => dates_parse_safely(value),
                None => true,
            },
        ensures
            exists|dates: Seq<Option<i64>>|
                (match parsed_annotation_value(format, representation@) {
                    Some(value) => dates_fit(value, dates),
                    None => true,
                }) && annotations_view(annotations) == parsed_annotations(parsed_annotation_value(format, representation@), dates),
    {
        match parse_annotation_value(format, representation) {
            Some(value) => {
                let resolved = resolve_annotations(&value);
                let ghost dates = choose|dates: Seq<Option<i64>>|
                    dates_fit(value_view(value), dates) && resolved_as(spec_resolve_annotations(value_view(value), dates), resolved);
                let annotations = match resolved {
                    Some(annotations) => annotations,
                    None => Annotations::default(),
                };
                assert(annotations_view(annotations) == parsed_annotations(Some(value_view(value)), dates));
                annotations
            },
            None => {
                let annotations = Annotations::default();
                assert(annotations_view(annotations) == parsed_annotations(None, Seq::empty()));
                annotations
            },
        }
    }

    /// Parse annotations as `parse` does, unless a time in them ends in a zone offset of a day
    /// or more (on which the time parser panics): then `None`.
    pub fn parse_checked(representation: &str, format: Format) -> (annotations: Option<Annotations>)
        ensures
            annotations is None <==> (parsed_annotation_value(format, representation@) matches Some(value)
                && !dates_parse_safely(value)),
            annotations matches Some(a) ==> exists|dates: Seq<Option<i64>>|
                (match parsed_annotation_value(format, representation@) {
                    Some(value) => dates_fit(value, dates),
                    None => true,
                }) && annotations_view(a) == parsed_annotations(parsed_annotation_value(format, representation@), dates),
    {
        match parse_annotation_value(format, representation) {
            Some(value) => if dates_parse_safely_exec(&value) {
                Some(Annotations::parse(representation, format))
            } else {
                None
            },
            None => Some(Annotations::parse(representation, format)),
        }
    }
}

} // verus!
