//! Catalogs: the rendered pages of a directory as rows, with extra columns, sorted by a
//! column.
use vstd::prelude::*;

use crate::markup::option_text;
use crate::order::{compare_values, entry_index, traverse, value_get, value_order, value_traverse};
use crate::render::rendered_page::{catalog_candidate_with, spec_catalog_candidate};
use crate::status::INTERNAL_SERVER_ERROR;
use crate::util::uri_path::{spec_uri_path_join, uri_path_join};
use crate::value::{get_variable, value_view, variables_map, variables_view, Value, ValueView, Variables};
use super::compare::{law_lowercase_order, row_order, row_order_of};
use super::credence::RenderConfiguration;
use super::page::{spec_site_title, RenderContext, RenderedPage};
use crate::text::trim_start_char;
use crate::util::constants::PATH_SEPARATOR;
use crate::util::file_path::spec_path_join;
use crate::util::uri_path::{spec_uri_path_parent, uri_path_parent, uri_path_parent_defined};
use crate::value::set_variable;

verus! {

/// A list of values as plain values.
pub open spec fn values_view(values: Seq<Value>) -> Seq<ValueView> {
    values.map_values(|v: Value| value_view(v))
}

/// A copy of a list of values.
pub fn copy_values(values: &Vec<Value>) -> (copy: Vec<Value>)
    ensures
        values_view(copy@) == values_view(values@),
{
    let mut copy: Vec<Value> = Vec::new();
    let mut i: usize = 0;
    while i < values.len()
        invariant
            i <= values@.len(),
            copy@.len() == i,
            forall|j: int| 0 <= j < i ==> value_view(#[trigger] copy@[j]) == value_view(values@[j]),
        decreases values@.len() - i,
    {
        copy.push(values[i].duplicate());
        i = i + 1;
    }
    assert(values_view(copy@) =~= values_view(values@));
    copy
}

// ----------------------------------------------------------------------------------------
// Columns
// ----------------------------------------------------------------------------------------

/// The path of keys a value names: the elements of a non-empty list, none for an empty list,
/// else the value itself.
pub open spec fn spec_to_traversal(v: ValueView) -> Option<Seq<ValueView>> {
    match v {
        ValueView::List(items) => if items.len() > 0 {
            Some(items)
        } else {
            None
        },
        _ => Some(seq![v]),
    }
}

/// The path of keys a value names.
pub fn to_traversal(v: &Value) -> (path: Option<Vec<Value>>)
    ensures
        path is Some <==> spec_to_traversal(value_view(*v)) is Some,
        path matches Some(p) ==> spec_to_traversal(value_view(*v)) == Some(values_view(p@)),
{
    match v {
        Value::List(items) => if items.len() > 0 {
            let copy = copy_values(items);
            assert(values_view(items@) =~= value_view(*v)->List_0);
            Some(copy)
        } else {
            None
        },
        _ => {
            let mut path: Vec<Value> = Vec::new();
            path.push(v.duplicate());
            assert(values_view(path@) =~= seq![value_view(*v)]);
            Some(path)
        },
    }
}

/// Extra columns: each name with the path of keys it selects.
pub type ExtraColumns = Vec<(String, Vec<Value>)>;

/// Extra columns as plain values.
pub open spec fn columns_view(columns: Seq<(String, Vec<Value>)>) -> Seq<(Seq<char>, Seq<ValueView>)> {
    columns.map_values(|column: (String, Vec<Value>)| (column.0@, values_view(column.1@)))
}

/// The extra columns a map of columns names, in order: each text key whose value names a path.
pub open spec fn spec_flatten_columns(entries: Seq<(ValueView, ValueView)>) -> Seq<(Seq<char>, Seq<ValueView>)>
    decreases entries.len(),
{
    if entries.len() == 0 {
        Seq::empty()
    } else {
        let rest = spec_flatten_columns(entries.drop_last());
        match (entries.last().0, spec_to_traversal(entries.last().1)) {
            (ValueView::Text(name), Some(path)) => rest.push((name, path)),
            _ => rest,
        }
    }
}

/// Flatten extra columns.
pub fn flatten_columns(columns: Option<&Vec<(Value, Value)>>) -> (flat: ExtraColumns)
    ensures
        columns_view(flat@) == match columns {
            Some(entries) => spec_flatten_columns(entries@.map_values(|e: (Value, Value)| (value_view(e.0), value_view(e.1)))),
            None => Seq::empty(),
        },
{
    let mut flat: ExtraColumns = Vec::new();
    match columns {
        Some(entries) => {
            let ghost views = entries@.map_values(|e: (Value, Value)| (value_view(e.0), value_view(e.1)));
            let mut i: usize = 0;
            assert(columns_view(flat@) =~= spec_flatten_columns(views.take(0)));
            while i < entries.len()
                invariant
                    i <= entries@.len(),
                    views == entries@.map_values(|e: (Value, Value)| (value_view(e.0), value_view(e.1))),
                    columns_view(flat@) == spec_flatten_columns(views.take(i as int)),
                decreases entries@.len() - i,
            {
                proof {
                    assert(views.take(i + 1).drop_last() =~= views.take(i as int));
                    assert(views.take(i + 1).last() == (value_view(entries@[i as int].0), value_view(entries@[i as int].1)));
                }
                match &entries[i].0 {
                    Value::Text(name) => match to_traversal(&entries[i].1) {
                        Some(path) => {
                            let ghost before = flat@;
                            flat.push((String::from_str(name.as_str()), path));
                            assert(columns_view(flat@) =~= columns_view(before).push(
                                (name@, spec_to_traversal(value_view(entries@[i as int].1))->0),
                            ));
                        },
                        None => {},
                    },
                    _ => {},
                }
                i = i + 1;
            }
            assert(views.take(entries@.len() as int) =~= views);
        },
        None => {},
    }
    flat
}

// ----------------------------------------------------------------------------------------
// CatalogAnnotation
// ----------------------------------------------------------------------------------------

/// Catalog annotation.
#[derive(Debug)]
pub struct CatalogAnnotation {
    /// Sort column.
    pub sort_column: Option<Vec<Value>>,
    /// Sort ascending.
    pub sort_ascending: bool,
    /// Extra columns.
    pub extra_columns: ExtraColumns,
}

/// A text value.
pub open spec fn text(t: Seq<char>) -> ValueView {
    ValueView::Text(t)
}

/// The sort a catalog annotation asks for: a map with a "column" (a path) and "ascending"
/// (true unless it is `false`); a list or a text is the column itself, ascending; otherwise no
/// column, ascending.
pub open spec fn spec_sort_request(catalog: ValueView) -> (Option<Seq<ValueView>>, bool) {
    match value_get(catalog, text("sort"@)) {
        Some(sort) => spec_sort_of(sort),
        None => (None, true),
    }
}

/// The extra columns a catalog annotation asks for: its "columns" map, flattened.
pub open spec fn spec_columns_request(catalog: ValueView) -> Seq<(Seq<char>, Seq<ValueView>)> {
    match value_get(catalog, text("columns"@)) {
        Some(ValueView::Mapping(entries)) => spec_flatten_columns(entries),
        _ => Seq::empty(),
    }
}

/// A path as plain values.
pub open spec fn path_view(path: Option<Vec<Value>>) -> Option<Seq<ValueView>> {
    match path {
        Some(p) => Some(values_view(p@)),
        None => None,
    }
}

/// The column a catalog is sorted by: the annotation's, else "title".
pub open spec fn spec_sort_column(annotation: CatalogAnnotation) -> Seq<ValueView> {
    match annotation.sort_column {
        Some(column) => values_view(column@),
        None => seq![text("title"@)],
    }
}

/// The rows with one more inserted after all that do not order after it.
pub open spec fn insert_row(sorted: Seq<ValueView>, row: ValueView, column: Seq<ValueView>, ascending: bool) -> Seq<ValueView>
    decreases sorted.len(),
{
    if sorted.len() == 0 {
        seq![row]
    } else if row_order(sorted.last(), row, column, ascending) > 0 {
        insert_row(sorted.drop_last(), row, column, ascending).push(sorted.last())
    } else {
        sorted.push(row)
    }
}

/// Rows sorted by a column, stably: each row in turn is inserted after all the rows before it
/// that do not order after it.
pub open spec fn sort_rows(rows: Seq<ValueView>, column: Seq<ValueView>, ascending: bool) -> Seq<ValueView>
    decreases rows.len(),
{
    if rows.len() == 0 {
        rows
    } else {
        insert_row(sort_rows(rows.drop_last(), column, ascending), rows.last(), column, ascending)
    }
}

/// Inserting a row where the rows after a position all order after it and the one before it
/// does not.
proof fn lemma_insert_row_at(sorted: Seq<ValueView>, row: ValueView, column: Seq<ValueView>, ascending: bool, at: int)
    requires
        0 <= at <= sorted.len(),
        forall|k: int| at <= k < sorted.len() ==> row_order(#[trigger] sorted[k], row, column, ascending) > 0,
        at > 0 ==> row_order(sorted[at - 1], row, column, ascending) <= 0,
    ensures
        insert_row(sorted, row, column, ascending) == sorted.take(at) + seq![row] + sorted.skip(at),
    decreases sorted.len(),
{
    if sorted.len() == 0 {
        assert(sorted.take(at) + seq![row] + sorted.skip(at) =~= seq![row]);
    } else if at == sorted.len() {
        assert(sorted.take(at) + seq![row] + sorted.skip(at) =~= sorted.push(row));
    } else {
        assert(row_order(sorted.last(), row, column, ascending) > 0);
        let shorter = sorted.drop_last();
        assert forall|k: int| at <= k < shorter.len() implies row_order(#[trigger] shorter[k], row, column, ascending) > 0 by {
            assert(shorter[k] == sorted[k]);
        }
        if at > 0 {
            assert(shorter[at - 1] == sorted[at - 1]);
        }
        lemma_insert_row_at(shorter, row, column, ascending, at);
        assert(shorter.take(at) + seq![row] + shorter.skip(at) + seq![sorted.last()] =~= sorted.take(at) + seq![row]
            + sorted.skip(at));
    }
}

/// The extra columns a catalog annotation asks for.
fn columns_request(catalog: &Value) -> (columns: ExtraColumns)
    ensures
        columns_view(columns@) == spec_columns_request(value_view(*catalog)),
{
    proof {
        reveal_strlit("columns");
    }
    let columns_key = Value::Text(String::from_str("columns"));
    match crate::order::get_value(catalog, &columns_key) {
        Some(Value::Mapping(entries)) => {
            let flat = flatten_columns(Some(entries));
            proof {
                let found = value_get(value_view(*catalog), text("columns"@))->0;
                assert(found->Mapping_0 =~= entries@.map_values(|e: (Value, Value)| (value_view(e.0), value_view(e.1))));
            }
            flat
        },
        _ => Vec::new(),
    }
}

/// The sort a catalog annotation asks for.
fn sort_request(catalog: &Value) -> (request: (Option<Vec<Value>>, bool))
    ensures
        path_view(request.0) == spec_sort_request(value_view(*catalog)).0,
        request.1 == spec_sort_request(value_view(*catalog)).1,
{
    proof {
        reveal_strlit("sort");
    }
    let sort_key = Value::Text(String::from_str("sort"));
    match crate::order::get_value(catalog, &sort_key) {
        Some(sort) => sort_of(sort),
        None => (None, true),
    }
}

/// The column and direction a sort value asks for.
pub open spec fn spec_sort_of(sort: ValueView) -> (Option<Seq<ValueView>>, bool) {
    match sort {
        ValueView::Mapping(_) => (
            match value_get(sort, text("column"@)) {
                Some(column) => spec_to_traversal(column),
                None => None,
            },
            match value_get(sort, text("ascending"@)) {
                Some(ValueView::Boolean(ascending)) => ascending,
                _ => true,
            },
        ),
        ValueView::List(_) => (spec_to_traversal(sort), true),
        ValueView::Text(_) => (spec_to_traversal(sort), true),
        _ => (None, true),
    }
}

/// Catalog rows are sorted descending only when asked: the direction is descending exactly
/// when the annotation's "sort" is a map whose "ascending" is the boolean `false`.
pub proof fn law_descending_only_when_asked(catalog: ValueView)
    ensures
        spec_sort_request(catalog).1 == !(value_get(catalog, ValueView::Text("sort"@)) matches Some(sort) && sort is Mapping
            && value_get(sort, ValueView::Text("ascending"@)) == Some(ValueView::Boolean(false))),
{
}

/// The column and direction a sort value asks for.
#[verifier::rlimit(30)]
fn sort_of(sort: &Value) -> (request: (Option<Vec<Value>>, bool))
    ensures
        path_view(request.0) == spec_sort_of(value_view(*sort)).0,
        request.1 == spec_sort_of(value_view(*sort)).1,
{
    match sort {
        Value::Mapping(_) => (sort_column_of(sort), sort_ascending_of(sort)),
        Value::List(_) => (to_traversal(sort), true),
        Value::Text(_) => (to_traversal(sort), true),
        _ => (None, true),
    }
}

/// The column a sort map names.
fn sort_column_of(sort: &Value) -> (column: Option<Vec<Value>>)
    ensures
        path_view(column) == match value_get(value_view(*sort), text("column"@)) {
            Some(column) => spec_to_traversal(column),
            None => None,
        },
{
    proof {
        reveal_strlit("column");
    }
    let column_key = Value::Text(String::from_str("column"));
    match crate::order::get_value(sort, &column_key) {
        Some(column) => to_traversal(column),
        None => None,
    }
}

/// Whether a sort map asks for ascending order (unless it says `false`).
fn sort_ascending_of(sort: &Value) -> (ascending: bool)
    ensures
        ascending == match value_get(value_view(*sort), text("ascending"@)) {
            Some(ValueView::Boolean(ascending)) => ascending,
            _ => true,
        },
{
    proof {
        reveal_strlit("ascending");
    }
    let ascending_key = Value::Text(String::from_str("ascending"));
    match crate::order::get_value(sort, &ascending_key) {
        Some(Value::Boolean(ascending)) => *ascending,
        _ => true,
    }
}

impl CatalogAnnotation {
    /// Constructor.
    pub fn new(sort_column: Option<Vec<Value>>, sort_ascending: bool, extra_columns: ExtraColumns) -> (annotation: Self)
        ensures
            annotation.sort_column == sort_column,
            annotation.sort_ascending == sort_ascending,
            annotation.extra_columns == extra_columns,
    {
        CatalogAnnotation { sort_column, sort_ascending, extra_columns }
    }

    /// Resolve a catalog annotation.
    pub fn resolve(catalog: &Value) -> (annotation: Self)
        ensures
            path_view(annotation.sort_column) == spec_sort_request(value_view(*catalog)).0,
            annotation.sort_ascending == spec_sort_request(value_view(*catalog)).1,
            columns_view(annotation.extra_columns@) == spec_columns_request(value_view(*catalog)),
    {
        let extra_columns = columns_request(catalog);
        let (sort_column, sort_ascending) = sort_request(catalog);
        CatalogAnnotation::new(sort_column, sort_ascending, extra_columns)
    }

    /// Into the sort column (defaults to "title").
    pub fn into_sort_column(self) -> (column: Vec<Value>)
        ensures
            values_view(column@) == spec_sort_column(self),
    {
        match self.sort_column {
            Some(column) => column,
            None => {
                proof {
                    reveal_strlit("title");
                }
                let mut column: Vec<Value> = Vec::new();
                column.push(Value::Text(String::from_str("title")));
                assert(values_view(column@) =~= seq![text("title"@)]);
                column
            },
        }
    }

    /// Sort rows by the column, stably.
    #[verifier::rlimit(40)]
    pub fn sort(self, rows: &mut Vec<Value>)
        ensures
            values_view(final(rows)@) == sort_rows(values_view(old(rows)@), spec_sort_column(self), self.sort_ascending),
    {
        let ascending = self.sort_ascending;
        let ghost column_view = spec_sort_column(self);
        let column = self.into_sort_column();
        let ghost values = rows@;
        let ghost original = values_view(values);
        let mut sorted: Vec<Value> = Vec::new();
        let mut rest: Vec<Value> = Vec::new();
        // Take the rows out, last first, to insert them in their original order.
        while rows.len() > 0
            invariant
                rest@ + rows@.reverse() == values.reverse(),
            decreases rows@.len(),
        {
            let ghost before = rows@;
            let row = rows.pop().unwrap();
            proof {
                assert(before == rows@.push(row));
                assert(before.reverse() =~= seq![row] + rows@.reverse());
                assert(rest@.push(row) + rows@.reverse() =~= rest@ + before.reverse());
            }
            rest.push(row);
        }
        proof {
            assert(rows@.reverse() =~= Seq::<Value>::empty());
            assert(rest@ =~= values.reverse());
        }
        let n = rest.len();
        assert(sort_rows(original.take(0), column_view, ascending) =~= values_view(sorted@));
        while rest.len() > 0
            invariant
                values_view(column@) == column_view,
                n == values.len(),
                original == values_view(values),
                rest@.len() <= n,
                forall|j: int| 0 <= j < rest@.len() ==> #[trigger] rest@[j] == values[n - 1 - j],
                values_view(sorted@) == sort_rows(original.take(n - rest@.len()), column_view, ascending),
            decreases rest@.len(),
        {
            let ghost before_rest = rest@;
            let row = rest.pop().unwrap();
            let ghost done = n - before_rest.len();
            proof {
                assert(before_rest[before_rest.len() - 1] == row);
                assert(values[done] == row);
                assert forall|j: int| 0 <= j < rest@.len() implies #[trigger] rest@[j] == values[n - 1 - j] by {
                    assert(rest@[j] == before_rest[j]);
                }
                assert(original.take(done + 1).drop_last() =~= original.take(done));
                assert(original.take(done + 1).last() == value_view(row));
            }
            // Find where the row goes: after every row that does not order after it.
            let mut at = sorted.len();
            while at > 0 && row_order_of(&sorted[at - 1], &row, &column, ascending) > 0
                invariant
                    at <= sorted@.len(),
                    values_view(column@) == column_view,
                    forall|k: int| at <= k < sorted@.len() ==> row_order(value_view(#[trigger] sorted@[k]), value_view(row), column_view, ascending) > 0,
                decreases at,
            {
                at = at - 1;
            }
            proof {
                let s = values_view(sorted@);
                assert forall|k: int| at <= k < s.len() implies row_order(#[trigger] s[k], value_view(row), column_view, ascending) > 0 by {
                    assert(s[k] == value_view(sorted@[k]));
                }
                if at > 0 {
                    assert(s[at - 1] == value_view(sorted@[at - 1]));
                }
                lemma_insert_row_at(s, value_view(row), column_view, ascending, at as int);
            }
            let ghost before_sorted = sorted@;
            sorted.insert(at, row);
            proof {
                assert(values_view(sorted@) =~= values_view(before_sorted).take(at as int) + seq![value_view(row)]
                    + values_view(before_sorted).skip(at as int));
            }
        }
        assert(original.take(n as int) =~= original);
        *rows = sorted;
    }
}

/// Sorting rows keeps every row: the sorted rows are a rearrangement of the rows.
pub proof fn law_sorted_rows_rearrange(rows: Seq<ValueView>, column: Seq<ValueView>, ascending: bool)
    ensures
        sort_rows(rows, column, ascending).to_multiset() == rows.to_multiset(),
    decreases rows.len(),
{
    broadcast use vstd::seq_lib::group_to_multiset_ensures;
    if rows.len() > 0 {
        law_sorted_rows_rearrange(rows.drop_last(), column, ascending);
        lemma_insert_row_multiset(sort_rows(rows.drop_last(), column, ascending), rows.last(), column, ascending);
        assert(rows.drop_last().push(rows.last()) =~= rows);
    }
}

/// Whether a row has the column: its path leads to a value in the row.
pub open spec fn has_column(row: ValueView, column: Seq<ValueView>) -> bool {
    value_traverse(row, column) is Some
}

/// Rows ordered by a column: no row orders after a later one.
pub open spec fn rows_sorted(rows: Seq<ValueView>, column: Seq<ValueView>, ascending: bool) -> bool {
    forall|i: int, j: int| 0 <= i < j < rows.len() ==> row_order(#[trigger] rows[i], #[trigger] rows[j], column, ascending) <= 0
}

/// Between rows that have the column, the order reverses when swapped and chains.
proof fn lemma_row_order(a: ValueView, b: ValueView, c: ValueView, column: Seq<ValueView>, ascending: bool)
    requires
        has_column(a, column),
        has_column(b, column),
        has_column(c, column),
    ensures
        row_order(a, b, column, ascending) == -row_order(b, a, column, ascending),
        row_order(a, b, column, ascending) <= 0 && row_order(b, c, column, ascending) <= 0 ==> row_order(a, c, column, ascending) <= 0,
{
    let x = value_traverse(a, column)->Some_0;
    let y = value_traverse(b, column)->Some_0;
    let z = value_traverse(c, column)->Some_0;
    law_lowercase_order(x, y, z);
    law_lowercase_order(z, y, x);
    law_lowercase_order(x, z, y);
}

/// rows and the new one.
proof fn lemma_insert_row_sorted(sorted: Seq<ValueView>, row: ValueView, column: Seq<ValueView>, ascending: bool)
    requires
        rows_sorted(sorted, column, ascending),
        forall|i: int| 0 <= i < sorted.len() ==> has_column(#[trigger] sorted[i], column),
        has_column(row, column),
    ensures
        rows_sorted(insert_row(sorted, row, column, ascending), column, ascending),
        forall|k: int|
            0 <= k < insert_row(sorted, row, column, ascending).len() ==> #[trigger] insert_row(sorted, row, column, ascending)[k]
                == row || sorted.contains(insert_row(sorted, row, column, ascending)[k]),
        insert_row(sorted, row, column, ascending).len() == sorted.len() + 1,
    decreases sorted.len(),
{
    let result = insert_row(sorted, row, column, ascending);
    if sorted.len() == 0 {
    } else if row_order(sorted.last(), row, column, ascending) > 0 {
        let shorter = sorted.drop_last();
        let last = sorted.last();
        assert forall|i: int, j: int| 0 <= i < j < shorter.len() implies row_order(#[trigger] shorter[i], #[trigger] shorter[j], column, ascending) <= 0 by {
            assert(shorter[i] == sorted[i] && shorter[j] == sorted[j]);
        }
        assert forall|i: int| 0 <= i < shorter.len() implies has_column(#[trigger] shorter[i], column) by {
            assert(shorter[i] == sorted[i]);
        }
        lemma_insert_row_sorted(shorter, row, column, ascending);
        let inner = insert_row(shorter, row, column, ascending);
        assert(has_column(last, column));
        assert forall|k: int| 0 <= k < inner.len() implies row_order(#[trigger] inner[k], last, column, ascending) <= 0 by {
            if inner[k] == row {
                lemma_row_order(last, row, row, column, ascending);
            } else {
                let j = choose|j: int| 0 <= j < shorter.len() && shorter[j] == inner[k];
                assert(sorted[j] == shorter[j]);
                assert(row_order(sorted[j], sorted[sorted.len() - 1], column, ascending) <= 0);
            }
        }
        assert(result == inner.push(last));
        assert forall|i: int, j: int| 0 <= i < j < result.len() implies row_order(#[trigger] result[i], #[trigger] result[j], column, ascending) <= 0 by {
            if j == result.len() - 1 {
                assert(result[i] == inner[i]);
            } else {
                assert(result[i] == inner[i] && result[j] == inner[j]);
            }
        }
        assert forall|k: int| 0 <= k < result.len() implies #[trigger] result[k] == row || sorted.contains(result[k]) by {
            if k == result.len() - 1 {
                assert(sorted[sorted.len() - 1] == last);
            } else {
                assert(result[k] == inner[k]);
                if inner[k] != row {
                    let j = choose|j: int| 0 <= j < shorter.len() && shorter[j] == inner[k];
                    assert(sorted[j] == shorter[j]);
                }
            }
        }
    } else {
        assert(result == sorted.push(row));
        assert forall|i: int| 0 <= i < sorted.len() implies row_order(#[trigger] sorted[i], row, column, ascending) <= 0 by {
            if i < sorted.len() - 1 {
                assert(row_order(sorted[i], sorted[sorted.len() - 1], column, ascending) <= 0);
                lemma_row_order(sorted[i], sorted[sorted.len() - 1], row, column, ascending);
            }
        }
        assert forall|i: int, j: int| 0 <= i < j < result.len() implies row_order(#[trigger] result[i], #[trigger] result[j], column, ascending) <= 0 by {
            if j == result.len() - 1 {
                assert(result[i] == sorted[i]);
            } else {
                assert(result[i] == sorted[i] && result[j] == sorted[j]);
            }
        }
        assert forall|k: int| 0 <= k < result.len() implies #[trigger] result[k] == row || sorted.contains(result[k]) by {
            if k < sorted.len() {
                assert(result[k] == sorted[k]);
            }
        }
    }
}

/// Rows that all have the column, whatever kind of value it holds, come out of sorting in
/// order: no row orders after a later one.
pub proof fn law_rows_sorted(rows: Seq<ValueView>, column: Seq<ValueView>, ascending: bool)
    requires
        forall|i: int| 0 <= i < rows.len() ==> has_column(#[trigger] rows[i], column),
    ensures
        rows_sorted(sort_rows(rows, column, ascending), column, ascending),
        forall|k: int| 0 <= k < sort_rows(rows, column, ascending).len() ==> rows.contains(#[trigger] sort_rows(rows, column, ascending)[k]),
        sort_rows(rows, column, ascending).len() == rows.len(),
    decreases rows.len(),
{
    if rows.len() > 0 {
        let shorter = rows.drop_last();
        assert forall|i: int| 0 <= i < shorter.len() implies has_column(#[trigger] shorter[i], column) by {
            assert(shorter[i] == rows[i]);
        }
        law_rows_sorted(shorter, column, ascending);
        let inner = sort_rows(shorter, column, ascending);
        assert forall|i: int| 0 <= i < inner.len() implies has_column(#[trigger] inner[i], column) by {
            let j = choose|j: int| 0 <= j < shorter.len() && shorter[j] == inner[i];
            assert(shorter[j] == rows[j]);
        }
        assert(has_column(rows[rows.len() - 1], column));
        lemma_insert_row_sorted(inner, rows.last(), column, ascending);
        let result = sort_rows(rows, column, ascending);
        assert forall|k: int| 0 <= k < result.len() implies rows.contains(#[trigger] result[k]) by {
            if result[k] == rows.last() {
                assert(rows[rows.len() - 1] == rows.last());
            } else {
                let j = choose|j: int| 0 <= j < inner.len() && inner[j] == result[k];
                let m = choose|m: int| 0 <= m < shorter.len() && shorter[m] == inner[j];
                assert(rows[m] == shorter[m]);
            }
        }
    }
}

/// Inserting a row adds it and keeps the others.
proof fn lemma_insert_row_multiset(sorted: Seq<ValueView>, row: ValueView, column: Seq<ValueView>, ascending: bool)
    ensures
        insert_row(sorted, row, column, ascending).to_multiset() == sorted.to_multiset().insert(row),
    decreases sorted.len(),
{
    broadcast use vstd::seq_lib::group_to_multiset_ensures;
    if sorted.len() == 0 {
        assert(seq![row] =~= Seq::<ValueView>::empty().push(row));
    } else if row_order(sorted.last(), row, column, ascending) > 0 {
        lemma_insert_row_multiset(sorted.drop_last(), row, column, ascending);
        assert(sorted.drop_last().push(sorted.last()) =~= sorted);
    } else {
    }
}

// ----------------------------------------------------------------------------------------
// Creating a catalog
// ----------------------------------------------------------------------------------------

/// The value a path selects among variables: the first key names a variable, the rest
/// traverse its value.
pub open spec fn spec_traverse_variable(variables: Map<Seq<char>, ValueView>, path: Seq<ValueView>) -> Option<ValueView> {
    if path.len() == 0 {
        None
    } else {
        match path[0] {
            ValueView::Text(name) => if variables.contains_key(name) {
                value_traverse(variables[name], path.drop_first())
            } else {
                None
            },
            _ => None,
        }
    }
}

/// The value a path selects among variables.
pub fn traverse_variable<'a>(variables: &'a Variables, path: &Vec<Value>) -> (found: Option<&'a Value>)
    ensures
        found is Some <==> spec_traverse_variable(variables_view(variables@), values_view(path@)) is Some,
        found matches Some(f) ==> spec_traverse_variable(variables_view(variables@), values_view(path@)) == Some(
            value_view(*f),
        ),
{
    if path.len() == 0 {
        return None;
    }
    match &path[0] {
        Value::Text(name) => match get_variable(variables, name.as_str()) {
            Some(value) => {
                let mut rest: Vec<Value> = Vec::new();
                let mut i: usize = 1;
                while i < path.len()
                    invariant
                        1 <= i <= path@.len(),
                        rest@.len() == i - 1,
                        forall|j: int| 0 <= j < i - 1 ==> value_view(#[trigger] rest@[j]) == value_view(path@[j + 1]),
                    decreases path@.len() - i,
                {
                    rest.push(path[i].duplicate());
                    i = i + 1;
                }
                assert(values_view(rest@) =~= values_view(path@).drop_first());
                assert(values_view(path@)[0] == value_view(path@[0]));
                traverse(value, &rest)
            },
            None => None,
        },
        _ => None,
    }
}

/// Map entries with a key set: the value of the first equal key is replaced, else the entry
/// is added.
pub open spec fn entries_insert(entries: Seq<(ValueView, ValueView)>, key: ValueView, value: ValueView) -> Seq<(ValueView, ValueView)> {
    match entry_index(entries, key) {
        Some(i) => entries.update(i, (entries[i].0, value)),
        None => entries.push((key, value)),
    }
}

/// Map entries as plain values.
pub open spec fn entries_view(entries: Seq<(Value, Value)>) -> Seq<(ValueView, ValueView)> {
    entries.map_values(|e: (Value, Value)| (value_view(e.0), value_view(e.1)))
}

/// Set a key of map entries.
pub fn mapping_insert(entries: &mut Vec<(Value, Value)>, key: Value, value: Value)
    ensures
        entries_view(final(entries)@) == entries_insert(entries_view(old(entries)@), value_view(key), value_view(value)),
{
    let ghost views = entries_view(entries@);
    let mut i: usize = 0;
    while i < entries.len()
        invariant
            i <= entries@.len(),
            views == entries_view(entries@),
            entries@ == old(entries)@,
            forall|j: int| 0 <= j < i ==> value_order((#[trigger] views[j]).0, value_view(key)) != 0,
        decreases entries@.len() - i,
    {
        assert(views[i as int] == (value_view(entries@[i as int].0), value_view(entries@[i as int].1)));
        if compare_values(&entries[i].0, &key) == 0 {
            proof {
                let k = i as int;
                let c = entry_index(views, value_view(key))->0;
                assert(0 <= c < views.len() && value_order(views[c].0, value_view(key)) == 0);
                if c < k {
                } else if c > k {
                }
                assert(c == k);
            }
            let (old_key, _) = entries.remove(i);
            let ghost removed = entries@;
            entries.insert(i, (old_key, value));
            assert(entries_view(entries@) =~= views.update(i as int, (views[i as int].0, value_view(value))));
            return;
        }
        i = i + 1;
    }
    entries.push((key, value));
    assert(entries_view(entries@) =~= views.push((value_view(key), value_view(value))));
}

/// A catalog row's entries with the extra columns that the page's variables have.
pub open spec fn add_columns(entries: Seq<(ValueView, ValueView)>, variables: Map<Seq<char>, ValueView>, columns: Seq<(Seq<char>, Seq<ValueView>)>) -> Seq<(ValueView, ValueView)>
    decreases columns.len(),
{
    if columns.len() == 0 {
        entries
    } else {
        let with = match spec_traverse_variable(variables, columns[0].1) {
            Some(v) => entries_insert(entries, text(columns[0].0), v),
            None => entries,
        };
        add_columns(with, variables, columns.drop_first())
    }
}

/// A catalog row: "title", "href", "created" and "updated", then the extra columns.
pub open spec fn spec_row(
    title: Seq<char>,
    href: Seq<char>,
    created: i64,
    updated: i64,
    variables: Map<Seq<char>, ValueView>,
    columns: Seq<(Seq<char>, Seq<ValueView>)>,
) -> ValueView {
    let base = entries_insert(
        entries_insert(
            entries_insert(
                entries_insert(Seq::empty(), text("title"@), text(title)),
                text("href"@),
                text(href),
            ),
            text("created"@),
            ValueView::Integer(created),
        ),
        text("updated"@),
        ValueView::Integer(updated),
    );
    ValueView::Mapping(add_columns(base, variables, columns))
}

/// The row of a page in a catalog, or `Err` when its title cannot be had: the title (else
/// the file name without extension), the link (the directory's URI path joined with that
/// name), the times (0 when unknown) and the extra columns.
pub open spec fn spec_page_row(
    page: RenderedPage,
    stem: Seq<char>,
    uri_path: Seq<char>,
    columns: Seq<(Seq<char>, Seq<ValueView>)>,
    configuration: RenderConfiguration,
) -> Result<ValueView, ()> {
    match spec_site_title(page, configuration) {
        Err(()) => Err(()),
        Ok(title) => Ok(
            spec_row(
                match title {
                    Some(t) => t,
                    None => stem,
                },
                spec_uri_path_join(uri_path, stem),
                match page.annotations.created {
                    Some(c) => c,
                    None => 0,
                },
                match page.annotations.updated {
                    Some(u) => u,
                    None => 0,
                },
                variables_view(page.annotations.values@),
                columns,
            ),
        ),
    }
}

/// The rows of a directory's files, in order: index files and files that are not rendered
/// pages are left out; each other file must have been read (`Err` otherwise) and gives its
/// row.
pub open spec fn spec_catalog_rows(
    files: Seq<(String, Option<RenderedPage>)>,
    uri_path: Seq<char>,
    columns: Seq<(Seq<char>, Seq<ValueView>)>,
    configuration: RenderConfiguration,
) -> Result<Seq<ValueView>, ()>
    decreases files.len(),
{
    if files.len() == 0 {
        Ok(Seq::empty())
    } else {
        match spec_catalog_rows(files.drop_last(), uri_path, columns, configuration) {
            Err(()) => Err(()),
            Ok(rows) => match spec_catalog_candidate(files.last().0@, configuration.midfix@) {
                None => Ok(rows),
                Some((_, _, stem)) => match files.last().1 {
                    None => Err(()),
                    Some(page) => match spec_page_row(page, stem, uri_path, columns, configuration) {
                        Err(()) => Err(()),
                        Ok(row) => Ok(rows.push(row)),
                    },
                },
            },
        }
    }
}

/// A catalog: the rows of the directory's files, sorted by the annotation's column.
pub open spec fn spec_create_catalog(
    annotation: CatalogAnnotation,
    uri_path: Seq<char>,
    files: Seq<(String, Option<RenderedPage>)>,
    configuration: RenderConfiguration,
) -> Result<Seq<ValueView>, ()> {
    match spec_catalog_rows(files, uri_path, columns_view(annotation.extra_columns@), configuration) {
        Err(()) => Err(()),
        Ok(rows) => Ok(sort_rows(rows, spec_sort_column(annotation), annotation.sort_ascending)),
    }
}

/// The row of a page.
fn page_row(
    page: &RenderedPage,
    stem: &str,
    uri_path: &str,
    columns: &ExtraColumns,
    configuration: &RenderConfiguration,
) -> (row: Result<Value, u16>)
    ensures
        row is Ok <==> spec_page_row(*page, stem@, uri_path@, columns_view(columns@), *configuration) is Ok,
        row matches Ok(r) ==> spec_page_row(*page, stem@, uri_path@, columns_view(columns@), *configuration) == Ok::<ValueView, ()>(
            value_view(r),
        ),
        row matches Err(status) ==> status == INTERNAL_SERVER_ERROR,
{
    proof {
        reveal_strlit("title");
        reveal_strlit("href");
        reveal_strlit("created");
        reveal_strlit("updated");
    }
    let title = match page.title(configuration) {
        Ok(Some(title)) => title,
        Ok(None) => String::from_str(stem),
        Err(status) => return Err(status),
    };
    let href = uri_path_join(uri_path, stem);
    let created = match page.annotations.created {
        Some(c) => c,
        None => 0,
    };
    let updated = match page.annotations.updated {
        Some(u) => u,
        None => 0,
    };
    let mut entries: Vec<(Value, Value)> = Vec::new();
    assert(entries_view(entries@) =~= Seq::<(ValueView, ValueView)>::empty());
    mapping_insert(&mut entries, Value::Text(String::from_str("title")), Value::Text(title));
    mapping_insert(&mut entries, Value::Text(String::from_str("href")), Value::Text(href));
    mapping_insert(&mut entries, Value::Text(String::from_str("created")), Value::Integer(created));
    mapping_insert(&mut entries, Value::Text(String::from_str("updated")), Value::Integer(updated));
    let ghost variables = variables_view(page.annotations.values@);
    let ghost all = columns_view(columns@);
    let mut i: usize = 0;
    assert(all.subrange(0, all.len() as int) =~= all);
    let ghost goal = add_columns(entries_view(entries@), variables, all);
    while i < columns.len()
        invariant
            i <= columns@.len(),
            all == columns_view(columns@),
            variables == variables_view(page.annotations.values@),
            goal == add_columns(entries_view(entries@), variables, all.subrange(i as int, all.len() as int)),
        decreases columns@.len() - i,
    {
        let ghost rest = all.subrange(i as int, all.len() as int);
        assert(rest[0] == (columns@[i as int].0@, values_view(columns@[i as int].1@)));
        assert(rest.drop_first() =~= all.subrange(i + 1, all.len() as int));
        match traverse_variable(&page.annotations.values, &columns[i].1) {
            Some(value) => {
                let value = value.duplicate();
                mapping_insert(&mut entries, Value::Text(String::from_str(columns[i].0.as_str())), value);
            },
            None => {},
        }
        i = i + 1;
    }
    let row = Value::Mapping(entries);
    assert(value_view(row)->Mapping_0 =~= entries_view(entries@));
    Ok(row)
}

/// Create a catalog: the rows of a directory's files, sorted.
///
/// `files` are the directory's file paths, each with the page read from it when it is a
/// rendered page other than an index (`None` when it could not be read); `uri_path` is the
/// directory's URI path.
pub fn create_catalog(
    annotation: CatalogAnnotation,
    uri_path: &str,
    files: &Vec<(String, Option<RenderedPage>)>,
    configuration: &RenderConfiguration,
) -> (catalog: Result<Vec<Value>, u16>)
    ensures
        catalog is Ok <==> spec_create_catalog(annotation, uri_path@, files@, *configuration) is Ok,
        catalog matches Ok(rows) ==> spec_create_catalog(annotation, uri_path@, files@, *configuration) == Ok::<Seq<ValueView>, ()>(
            values_view(rows@),
        ),
        catalog matches Err(status) ==> status == INTERNAL_SERVER_ERROR,
{
    let mut rows: Vec<Value> = Vec::new();
    let ghost columns = columns_view(annotation.extra_columns@);
    let mut i: usize = 0;
    assert(files@.take(0) =~= Seq::<(String, Option<RenderedPage>)>::empty());
    assert(values_view(rows@) =~= Seq::<ValueView>::empty());
    while i < files.len()
        invariant
            i <= files@.len(),
            columns == columns_view(annotation.extra_columns@),
            spec_catalog_rows(files@.take(i as int), uri_path@, columns, *configuration) == Ok::<Seq<ValueView>, ()>(
                values_view(rows@),
            ),
        decreases files@.len() - i,
    {
        proof {
            assert(files@.take(i + 1).drop_last() =~= files@.take(i as int));
            assert(files@.take(i + 1).last() == files@[i as int]);
        }
        match catalog_candidate_with(files[i].0.as_str(), configuration.midfix.as_str()) {
            Some((_, _, stem)) => match &files[i].1 {
                Some(page) => {
                    let row = match page_row(page, stem.as_str(), uri_path, &annotation.extra_columns, configuration) {
                        Ok(row) => row,
                        Err(status) => {
                            proof {
                                lemma_catalog_rows_fail(files@, uri_path@, columns, *configuration, i + 1);
                            }
                            return Err(status);
                        },
                    };
                    let ghost before = rows@;
                    rows.push(row);
                    assert(values_view(rows@) =~= values_view(before).push(value_view(row)));
                },
                None => {
                    proof {
                        lemma_catalog_rows_fail(files@, uri_path@, columns, *configuration, i + 1);
                    }
                    return Err(INTERNAL_SERVER_ERROR);
                },
            },
            None => {},
        }
        i = i + 1;
    }
    assert(files@.take(files@.len() as int) =~= files@);
    annotation.sort(&mut rows);
    Ok(rows)
}

/// Once the rows of some first files fail, the rows of all of them fail.
proof fn lemma_catalog_rows_fail(
    files: Seq<(String, Option<RenderedPage>)>,
    uri_path: Seq<char>,
    columns: Seq<(Seq<char>, Seq<ValueView>)>,
    configuration: RenderConfiguration,
    n: int,
)
    requires
        0 <= n <= files.len(),
        spec_catalog_rows(files.take(n), uri_path, columns, configuration) is Err,
    ensures
        spec_catalog_rows(files, uri_path, columns, configuration) is Err,
    decreases files.len() - n,
{
    if n < files.len() {
        assert(files.take(n + 1).drop_last() =~= files.take(n));
        lemma_catalog_rows_fail(files, uri_path, columns, configuration, n + 1);
    } else {
        assert(files.take(n) =~= files);
    }
}

// ----------------------------------------------------------------------------------------
// CatalogPreparer
// ----------------------------------------------------------------------------------------

/// Prepares the "catalog" variable of a page that asks for a catalog.
#[derive(Debug)]
pub struct CatalogPreparer;

/// The catalog a page asks for: its "catalog" annotation.
pub open spec fn spec_catalog_annotation(page: RenderedPage) -> Option<Value> {
    let other = variables_map(page.annotations.other@);
    if other.contains_key("catalog"@) {
        Some(other["catalog"@])
    } else {
        None
    }
}

/// The variables with the catalog a page asks for, if it does: the rows of the files of the
/// directory above its URI path (`Err` when they cannot be had).
pub open spec fn spec_catalog_prepare(
    variables: Map<Seq<char>, ValueView>,
    page: RenderedPage,
    uri_path: Seq<char>,
    files: Seq<(String, Option<RenderedPage>)>,
    configuration: RenderConfiguration,
) -> Result<Map<Seq<char>, ValueView>, ()> {
    match spec_catalog_annotation(page) {
        None => Ok(variables),
        Some(catalog) => {
            match spec_catalog_of(value_view(catalog), spec_uri_path_parent(uri_path), files, configuration) {
                Err(()) => Err(()),
                Ok(rows) => Ok(variables.insert("catalog"@, ValueView::List(rows))),
            }
        },
    }
}

/// The catalog a catalog annotation asks for, of the files of a directory.
#[verifier::opaque]
pub open spec fn spec_catalog_of(
    catalog: ValueView,
    uri_path: Seq<char>,
    files: Seq<(String, Option<RenderedPage>)>,
    configuration: RenderConfiguration,
) -> Result<Seq<ValueView>, ()> {
    let (column, ascending) = spec_sort_request(catalog);
    let column = match column {
        Some(c) => c,
        None => seq![text("title"@)],
    };
    match spec_catalog_rows(files, uri_path, spec_columns_request(catalog), configuration) {
        Err(()) => Err(()),
        Ok(rows) => Ok(sort_rows(rows, column, ascending)),
    }
}

/// The catalog a catalog annotation asks for, of the files of the directory above a page's
/// URI path.
fn catalog_of(catalog: &Value, page_uri_path: &str, files: &Vec<(String, Option<RenderedPage>)>, configuration: &RenderConfiguration) -> (rows: Result<Vec<Value>, u16>)
    requires
        uri_path_parent_defined(page_uri_path@),
    ensures
        rows is Ok <==> spec_catalog_of(value_view(*catalog), spec_uri_path_parent(page_uri_path@), files@, *configuration) is Ok,
        rows matches Ok(r) ==> spec_catalog_of(value_view(*catalog), spec_uri_path_parent(page_uri_path@), files@, *configuration)
            == Ok::<Seq<ValueView>, ()>(values_view(r@)),
        rows matches Err(status) ==> status == INTERNAL_SERVER_ERROR,
{
    let annotation = CatalogAnnotation::resolve(catalog);
    proof {
        reveal(spec_catalog_of);
        assert(spec_sort_column(annotation) == match spec_sort_request(value_view(*catalog)).0 {
            Some(c) => c,
            None => seq![text("title"@)],
        });
    }
    let uri_path = uri_path_parent(page_uri_path);
    create_catalog(annotation, uri_path.as_str(), files, configuration)
}

impl CatalogPreparer {
    /// The directory whose files the page's catalog lists, if the page asks for one: its URI
    /// path (the parent of the page's) and its asset path.
    pub fn directory(&self, context: &RenderContext) -> (directory: Option<(String, String)>)
        requires
            uri_path_parent_defined(context.uri_path@),
        ensures
            directory is Some <==> spec_catalog_annotation(*context.rendered_page) is Some,
            directory matches Some((uri_path, asset_path)) ==> {
                &&& uri_path@ == spec_uri_path_parent(context.uri_path@)
                &&& asset_path@ == spec_path_join(
                    context.configuration.files.assets@,
                    trim_start_char(spec_uri_path_parent(context.uri_path@), PATH_SEPARATOR),
                )
            },
    {
        proof {
            reveal_strlit("catalog");
        }
        match get_variable(&context.rendered_page.annotations.other, "catalog") {
            Some(_) => {
                let uri_path = uri_path_parent(context.uri_path.as_str());
                let asset_path = context.configuration.files.asset(uri_path.as_str());
                Some((uri_path, asset_path))
            },
            None => None,
        }
    }

    /// Prepare the "catalog" variable, given the files of the directory the catalog lists
    /// (each with its page, read when it is a rendered page other than an index).
    pub fn prepare<'own>(&self, context: &mut RenderContext<'own>, files: &Vec<(String, Option<RenderedPage>)>) -> (result: Result<(), u16>)
        requires
            uri_path_parent_defined(old(context).uri_path@),
        ensures
            result is Ok <==> spec_catalog_prepare(
                variables_view(old(context).variables@),
                *old(context).rendered_page,
                old(context).uri_path@,
                files@,
                old(context).configuration.render,
            ) is Ok,
            result is Ok ==> spec_catalog_prepare(
                variables_view(old(context).variables@),
                *old(context).rendered_page,
                old(context).uri_path@,
                files@,
                old(context).configuration.render,
            ) == Ok::<Map<Seq<char>, ValueView>, ()>(variables_view(final(context).variables@)),
            result matches Err(status) ==> status == INTERNAL_SERVER_ERROR,
    {
        proof {
            reveal_strlit("catalog");
        }
        match get_variable(&context.rendered_page.annotations.other, "catalog") {
            Some(catalog) => match catalog_of(catalog, context.uri_path.as_str(), files, &context.configuration.render) {
                Ok(rows) => {
                    let ghost views = values_view(rows@);
                    let list = Value::List(rows);
                    assert(value_view(list)->List_0 =~= views);
                    set_variable(&mut context.variables, String::from_str("catalog"), list);
                    Ok(())
                },
                Err(status) => Err(status),
            },
            None => Ok(()),
        }
    }
}

} // verus!
