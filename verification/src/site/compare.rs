//! Comparing values as catalogs sort them: texts without case, other values in their order.
use vstd::prelude::*;

use std::cmp::Ordering;

use crate::order::{compare_values, int_sign, law_value_order, lemma_lex_order_laws, order_int, order_laws, traverse, value_order, value_traverse};
use crate::text::{chars_of, lex_order, lex_order_exec, lower, to_lowercase};
use crate::value::{value_view, Value, ValueView};

verus! {

/// Whether an `Ordering` is the sign of an order.
pub open spec fn ordering_is(ordering: Ordering, order: int) -> bool {
    match ordering {
        Ordering::Less => order < 0,
        Ordering::Equal => order == 0,
        Ordering::Greater => order > 0,
    }
}

/// The order of two values with texts compared without case: -1, 0 or 1.
pub open spec fn lowercase_order(a: ValueView, b: ValueView) -> int {
    match (a, b) {
        (ValueView::Text(x), ValueView::Text(y)) => lex_order(lower(x), lower(y)),
        _ => value_order(a, b),
    }
}

/// Comparing without case is a total preorder: swapping two values reverses their order, and
/// the order chains across three values.
pub proof fn law_lowercase_order(a: ValueView, b: ValueView, c: ValueView)
    ensures
        order_laws(lowercase_order(a, b), lowercase_order(b, a), lowercase_order(b, c), lowercase_order(a, c)),
{
    law_value_order(a, b, c);
    let x = match a {
        ValueView::Text(t) => lower(t),
        _ => Seq::empty(),
    };
    let y = match b {
        ValueView::Text(t) => lower(t),
        _ => Seq::empty(),
    };
    let z = match c {
        ValueView::Text(t) => lower(t),
        _ => Seq::empty(),
    };
    lemma_lex_order_laws(x, y, z);
}

/// The order of two rows by a column: by the values the column's path selects in them
/// (reversed when descending); a row lacking the column comes first.
pub open spec fn row_order(row1: ValueView, row2: ValueView, column_path: Seq<ValueView>, ascending: bool) -> int {
    match (value_traverse(row1, column_path), value_traverse(row2, column_path)) {
        (Some(a), Some(b)) => if ascending {
            lowercase_order(a, b)
        } else {
            int_sign(0, lowercase_order(a, b))
        },
        _ => -1,
    }
}

/// The `Ordering` of an order.
fn ordering_of(order: i8) -> (ordering: Ordering)
    ensures
        ordering_is(ordering, order_int(order)),
{
    if order < 0 {
        Ordering::Less
    } else if order > 0 {
        Ordering::Greater
    } else {
        Ordering::Equal
    }
}

/// The order of two values with texts compared without case.
pub fn lowercase_order_of(a: &Value, b: &Value) -> (order: i8)
    ensures
        order_int(order) == lowercase_order(value_view(*a), value_view(*b)),
{
    match (a, b) {
        (Value::Text(x), Value::Text(y)) => {
            let x = chars_of(to_lowercase(x.as_str()).as_str());
            let y = chars_of(to_lowercase(y.as_str()).as_str());
            lex_order_exec(&x, &y)
        },
        _ => compare_values(a, b),
    }
}

/// Compare lowercase: texts without case, other values in their order.
pub fn cmp_lowercase(a: &Value, b: &Value) -> (ordering: Ordering)
    ensures
        ordering_is(ordering, lowercase_order(value_view(*a), value_view(*b))),
{
    ordering_of(lowercase_order_of(a, b))
}

/// Compare values as lowercase.
pub fn cmp_value_lowercase(a: &Value, b: &Value) -> (ordering: Ordering)
    ensures
        ordering_is(ordering, lowercase_order(value_view(*a), value_view(*b))),
{
    cmp_lowercase(a, b)
}

/// Compare variants as lowercase.
pub fn cmp_variant_lowercase(a: &Value, b: &Value) -> (ordering: Ordering)
    ensures
        ordering_is(ordering, lowercase_order(value_view(*a), value_view(*b))),
{
    cmp_lowercase(a, b)
}

/// The order of two rows by a column.
pub fn row_order_of(row1: &Value, row2: &Value, column_path: &Vec<Value>, ascending: bool) -> (order: i8)
    ensures
        order_int(order) == row_order(value_view(*row1), value_view(*row2), column_path@.map_values(|key: Value| value_view(key)), ascending),
{
    match (traverse(row1, column_path), traverse(row2, column_path)) {
        (Some(a), Some(b)) => {
            let order = lowercase_order_of(a, b);
            if ascending {
                order
            } else if order < 0 {
                1
            } else if order > 0 {
                -1
            } else {
                0
            }
        },
        _ => -1,
    }
}

/// Compare rows by a column.
pub fn cmp_rows_by_column(row1: &Value, row2: &Value, column_path: &Vec<Value>, ascending: bool) -> (ordering: Ordering)
    ensures
        ordering_is(
            ordering,
            row_order(value_view(*row1), value_view(*row2), column_path@.map_values(|key: Value| value_view(key)), ascending),
        ),
{
    ordering_of(row_order_of(row1, row2, column_path, ascending))
}

} // verus!
