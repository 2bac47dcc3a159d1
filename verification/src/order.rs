//! The order of normal values: first by kind (null, integer, unsigned integer, float, boolean,
//! text, blob, list, map), then by what they hold. Texts and blobs compare lexicographically,
//! floats in the total order where every NaN is greatest and -0 equals 0, lists element by
//! element, and maps entry by entry in the order they hold their entries.
use vstd::prelude::*;

use crate::render::catalog::{lemma_lex_order_antisymmetric, lemma_lex_order_range, lemma_lex_order_transitive};
use crate::text::{lex_order, lex_order_exec};
use crate::value::{value_view, Value, ValueView};

verus! {

/// The sign of `a - b`: -1, 0 or 1.
pub open spec fn int_sign(a: int, b: int) -> int {
    if a < b {
        -1
    } else if a > b {
        1
    } else {
        0
    }
}

/// An order as an integer.
pub open spec fn order_int(order: i8) -> int {
    order as int
}

/// The rank of a value's kind.
pub open spec fn value_rank(v: ValueView) -> int {
    match v {
        ValueView::Null => 1,
        ValueView::Integer(_) => 2,
        ValueView::UnsignedInteger(_) => 3,
        ValueView::Float(_) => 4,
        ValueView::Boolean(_) => 5,
        ValueView::Text(_) => 6,
        ValueView::Blob(_) => 7,
        ValueView::List(_) => 8,
        ValueView::Mapping(_) => 9,
    }
}

/// Where a float (by its IEEE 754 bits) stands among floats: every NaN above all numbers,
/// negative numbers below zero by their magnitude, -0 equal to 0.
pub open spec fn float_key(bits: u64) -> int {
    let magnitude = bits & 0x7fff_ffff_ffff_ffffu64;
    if magnitude > 0x7ff0_0000_0000_0000u64 {
        0x1_0000_0000_0000_0000int
    } else if bits >= 0x8000_0000_0000_0000u64 {
        -(magnitude as int)
    } else {
        magnitude as int
    }
}

/// Lexicographic order of bytes: -1, 0 or 1.
pub open spec fn bytes_order(a: Seq<u8>, b: Seq<u8>) -> int
    decreases a.len(),
{
    if a.len() == 0 && b.len() == 0 {
        0
    } else if a.len() == 0 {
        -1
    } else if b.len() == 0 {
        1
    } else if a[0] < b[0] {
        -1
    } else if a[0] > b[0] {
        1
    } else {
        bytes_order(a.drop_first(), b.drop_first())
    }
}

/// The order of two values: -1, 0 or 1.
pub open spec fn value_order(a: ValueView, b: ValueView) -> int
    decreases a, 0int,
{
    if value_rank(a) != value_rank(b) {
        int_sign(value_rank(a), value_rank(b))
    } else {
        match (a, b) {
            (ValueView::Boolean(x), ValueView::Boolean(y)) => int_sign(if x { 1 } else { 0 }, if y { 1 } else { 0 }),
            (ValueView::Integer(x), ValueView::Integer(y)) => int_sign(x as int, y as int),
            (ValueView::UnsignedInteger(x), ValueView::UnsignedInteger(y)) => int_sign(x as int, y as int),
            (ValueView::Float(x), ValueView::Float(y)) => int_sign(float_key(x), float_key(y)),
            (ValueView::Text(x), ValueView::Text(y)) => lex_order(x, y),
            (ValueView::Blob(x), ValueView::Blob(y)) => bytes_order(x, y),
            (ValueView::List(x), ValueView::List(y)) => list_order(x, y),
            (ValueView::Mapping(x), ValueView::Mapping(y)) => entries_order(x, y),
            _ => 0,
        }
    }
}

/// Lexicographic order of lists of values.
pub open spec fn list_order(a: Seq<ValueView>, b: Seq<ValueView>) -> int
    decreases a, 1int,
{
    if a.len() == 0 && b.len() == 0 {
        0
    } else if a.len() == 0 {
        -1
    } else if b.len() == 0 {
        1
    } else {
        let first = value_order(a[0], b[0]);
        if first != 0 {
            first
        } else {
            list_order(a.drop_first(), b.drop_first())
        }
    }
}

/// Lexicographic order of map entries, each by key then by value.
pub open spec fn entries_order(a: Seq<(ValueView, ValueView)>, b: Seq<(ValueView, ValueView)>) -> int
    decreases a, 1int,
{
    if a.len() == 0 && b.len() == 0 {
        0
    } else if a.len() == 0 {
        -1
    } else if b.len() == 0 {
        1
    } else {
        let key = value_order(a[0].0, b[0].0);
        if key != 0 {
            key
        } else {
            let value = value_order(a[0].1, b[0].1);
            if value != 0 {
                value
            } else {
                entries_order(a.drop_first(), b.drop_first())
            }
        }
    }
}

/// What makes an order a total preorder, for three values `a`, `b`, `c` given the orders of
/// (a, b), (b, a), (b, c) and (a, c): swapping reverses, the order is -1, 0 or 1, and "not
/// after", "before" and "equal" chain.
pub open spec fn order_laws(ab: int, ba: int, bc: int, ac: int) -> bool {
    &&& ab == -ba
    &&& -1 <= ab <= 1
    &&& ab <= 0 && bc <= 0 ==> ac <= 0
    &&& ab < 0 && bc <= 0 ==> ac < 0
    &&& ab <= 0 && bc < 0 ==> ac < 0
    &&& ab == 0 && bc == 0 ==> ac == 0
}

/// The laws of the text order.
pub proof fn lemma_lex_order_laws(a: Seq<char>, b: Seq<char>, c: Seq<char>)
    ensures
        order_laws(lex_order(a, b), lex_order(b, a), lex_order(b, c), lex_order(a, c)),
{
    lemma_lex_order_range(a, b);
    lemma_lex_order_antisymmetric(a, b);
    lemma_lex_order_antisymmetric(b, c);
    lemma_lex_order_antisymmetric(a, c);
    if lex_order(a, b) <= 0 && lex_order(b, c) <= 0 {
        lemma_lex_order_transitive(a, b, c);
    }
    if lex_order(b, c) <= 0 && lex_order(c, a) <= 0 {
        lemma_lex_order_transitive(b, c, a);
    }
    if lex_order(c, a) <= 0 && lex_order(a, b) <= 0 {
        lemma_lex_order_transitive(c, a, b);
    }
    if lex_order(c, b) <= 0 && lex_order(b, a) <= 0 {
        lemma_lex_order_transitive(c, b, a);
    }
}

/// The byte order reverses when its arguments are swapped, and is -1, 0 or 1.
pub proof fn lemma_bytes_order_antisymmetric(a: Seq<u8>, b: Seq<u8>)
    ensures
        bytes_order(a, b) == -bytes_order(b, a),
        -1 <= bytes_order(a, b) <= 1,
    decreases a.len(),
{
    if a.len() > 0 && b.len() > 0 && a[0] == b[0] {
        lemma_bytes_order_antisymmetric(a.drop_first(), b.drop_first());
    }
}

/// The byte order is transitive.
pub proof fn lemma_bytes_order_transitive(a: Seq<u8>, b: Seq<u8>, c: Seq<u8>)
    requires
        bytes_order(a, b) <= 0,
        bytes_order(b, c) <= 0,
    ensures
        bytes_order(a, c) <= 0,
    decreases a.len(),
{
    if a.len() > 0 && b.len() > 0 && c.len() > 0 && a[0] == b[0] && b[0] == c[0] {
        lemma_bytes_order_transitive(a.drop_first(), b.drop_first(), c.drop_first());
    }
}

/// The laws of the byte order.
pub proof fn lemma_bytes_order_laws(a: Seq<u8>, b: Seq<u8>, c: Seq<u8>)
    ensures
        order_laws(bytes_order(a, b), bytes_order(b, a), bytes_order(b, c), bytes_order(a, c)),
{
    lemma_bytes_order_antisymmetric(a, b);
    lemma_bytes_order_antisymmetric(b, c);
    lemma_bytes_order_antisymmetric(a, c);
    if bytes_order(a, b) <= 0 && bytes_order(b, c) <= 0 {
        lemma_bytes_order_transitive(a, b, c);
    }
    if bytes_order(b, c) <= 0 && bytes_order(c, a) <= 0 {
        lemma_bytes_order_transitive(b, c, a);
    }
    if bytes_order(c, a) <= 0 && bytes_order(a, b) <= 0 {
        lemma_bytes_order_transitive(c, a, b);
    }
    if bytes_order(c, b) <= 0 && bytes_order(b, a) <= 0 {
        lemma_bytes_order_transitive(c, b, a);
    }
}

/// The order of values is a total preorder: swapping two values reverses their order, and
/// the order chains across three values.
pub proof fn law_value_order(a: ValueView, b: ValueView, c: ValueView)
    ensures
        order_laws(value_order(a, b), value_order(b, a), value_order(b, c), value_order(a, c)),
    decreases a, 0int,
{
    if value_rank(a) == value_rank(b) {
        let same = value_rank(b) == value_rank(c);
        match (a, b) {
            (ValueView::Text(x), ValueView::Text(y)) => {
                let z = if same { c->Text_0 } else { y };
                lemma_lex_order_laws(x, y, z);
            },
            (ValueView::Blob(x), ValueView::Blob(y)) => {
                let z = if same { c->Blob_0 } else { y };
                lemma_bytes_order_laws(x, y, z);
            },
            (ValueView::List(x), ValueView::List(y)) => {
                let z = if same { c->List_0 } else { y };
                lemma_list_order_laws(x, y, z);
            },
            (ValueView::Mapping(x), ValueView::Mapping(y)) => {
                let z = if same { c->Mapping_0 } else { y };
                lemma_entries_order_laws(x, y, z);
            },
            _ => {},
        }
    }
}

/// The order of lists of values is a total preorder.
pub proof fn lemma_list_order_laws(x: Seq<ValueView>, y: Seq<ValueView>, z: Seq<ValueView>)
    ensures
        order_laws(list_order(x, y), list_order(y, x), list_order(y, z), list_order(x, z)),
    decreases x, 1int,
{
    if x.len() > 0 && y.len() > 0 {
        let w = if z.len() > 0 { z } else { y };
        law_value_order(x[0], y[0], w[0]);
        lemma_list_order_laws(x.drop_first(), y.drop_first(), w.drop_first());
    }
}

/// The order of map entries is a total preorder.
pub proof fn lemma_entries_order_laws(
    x: Seq<(ValueView, ValueView)>,
    y: Seq<(ValueView, ValueView)>,
    z: Seq<(ValueView, ValueView)>,
)
    ensures
        order_laws(entries_order(x, y), entries_order(y, x), entries_order(y, z), entries_order(x, z)),
    decreases x, 1int,
{
    if x.len() > 0 && y.len() > 0 {
        let w = if z.len() > 0 { z } else { y };
        law_value_order(x[0].0, y[0].0, w[0].0);
        law_value_order(x[0].1, y[0].1, w[0].1);
        lemma_entries_order_laws(x.drop_first(), y.drop_first(), w.drop_first());
    }
}

/// The rank of a value's kind.
fn rank_of(v: &Value) -> (rank: u8)
    ensures
        rank as int == value_rank(value_view(*v)),
{
    match v {
        Value::Null => 1,
        Value::Integer(_) => 2,
        Value::UnsignedInteger(_) => 3,
        Value::Float(_) => 4,
        Value::Boolean(_) => 5,
        Value::Text(_) => 6,
        Value::Blob(_) => 7,
        Value::List(_) => 8,
        Value::Mapping(_) => 9,
    }
}

/// Where a float (by its bits) stands among floats.
fn float_key_of(bits: u64) -> (key: i128)
    ensures
        key as int == float_key(bits),
{
    let magnitude = bits & 0x7fff_ffff_ffff_ffffu64;
    if magnitude > 0x7ff0_0000_0000_0000u64 {
        0x1_0000_0000_0000_0000i128
    } else if bits >= 0x8000_0000_0000_0000u64 {
        -(magnitude as i128)
    } else {
        magnitude as i128
    }
}

/// The sign of `a - b`.
fn sign_of(a: i128, b: i128) -> (sign: i8)
    ensures
        sign as int == int_sign(a as int, b as int),
{
    if a < b {
        -1
    } else if a > b {
        1
    } else {
        0
    }
}

/// Lexicographic order of bytes.
fn bytes_order_of(a: &Vec<u8>, b: &Vec<u8>) -> (order: i8)
    ensures
        order as int == bytes_order(a@, b@),
{
    let mut i: usize = 0;
    assert(a@.subrange(0, a@.len() as int) =~= a@);
    assert(b@.subrange(0, b@.len() as int) =~= b@);
    while i < a.len() && i < b.len()
        invariant
            i <= a@.len(),
            i <= b@.len(),
            bytes_order(a@, b@) == bytes_order(a@.subrange(i as int, a@.len() as int), b@.subrange(i as int, b@.len() as int)),
        decreases a@.len() - i,
    {
        let ghost sa = a@.subrange(i as int, a@.len() as int);
        let ghost sb = b@.subrange(i as int, b@.len() as int);
        assert(sa[0] == a@[i as int]);
        assert(sb[0] == b@[i as int]);
        if a[i] < b[i] {
            return -1;
        }
        if a[i] > b[i] {
            return 1;
        }
        assert(sa.drop_first() =~= a@.subrange(i + 1, a@.len() as int));
        assert(sb.drop_first() =~= b@.subrange(i + 1, b@.len() as int));
        i = i + 1;
    }
    if i < a.len() {
        1
    } else if i < b.len() {
        -1
    } else {
        0
    }
}

/// The order of two values: -1, 0 or 1.
pub fn compare_values(a: &Value, b: &Value) -> (order: i8)
    ensures
        order as int == value_order(value_view(*a), value_view(*b)),
    decreases a,
{
    let rank_a = rank_of(a);
    let rank_b = rank_of(b);
    if rank_a != rank_b {
        return if rank_a < rank_b {
            -1
        } else {
            1
        };
    }
    match (a, b) {
        (Value::Null, Value::Null) => 0,
        (Value::Boolean(x), Value::Boolean(y)) => sign_of(if *x { 1 } else { 0 }, if *y { 1 } else { 0 }),
        (Value::Integer(x), Value::Integer(y)) => sign_of(*x as i128, *y as i128),
        (Value::UnsignedInteger(x), Value::UnsignedInteger(y)) => sign_of(*x as i128, *y as i128),
        (Value::Float(x), Value::Float(y)) => sign_of(float_key_of(*x), float_key_of(*y)),
        (Value::Text(x), Value::Text(y)) => {
            let cx = crate::text::chars_of(x.as_str());
            let cy = crate::text::chars_of(y.as_str());
            lex_order_exec(&cx, &cy)
        },
        (Value::Blob(x), Value::Blob(y)) => bytes_order_of(x, y),
        (Value::List(x), Value::List(y)) => {
            let ghost vx = value_view(*a)->List_0;
            let ghost vy = value_view(*b)->List_0;
            let mut i: usize = 0;
            assert(vx.subrange(0, vx.len() as int) =~= vx);
            assert(vy.subrange(0, vy.len() as int) =~= vy);
            while i < x.len() && i < y.len()
                invariant
                    *a == Value::List(*x),
                    *b == Value::List(*y),
                    vx == value_view(*a)->List_0,
                    vy == value_view(*b)->List_0,
                    vx.len() == x@.len(),
                    vy.len() == y@.len(),
                    i <= x@.len(),
                    i <= y@.len(),
                    list_order(vx, vy) == list_order(vx.subrange(i as int, vx.len() as int), vy.subrange(i as int, vy.len() as int)),
                decreases x@.len() - i,
            {
                let ghost sx = vx.subrange(i as int, vx.len() as int);
                let ghost sy = vy.subrange(i as int, vy.len() as int);
                assert(sx[0] == value_view(x@[i as int]));
                assert(sy[0] == value_view(y@[i as int]));
                proof {
                    assert(decreases_to!(*a => a->List_0));
                    assert(decreases_to!(*x => x@));
                    assert(decreases_to!(x@ => x@[i as int]));
                }
                let first = compare_values(&x[i], &y[i]);
                if first != 0 {
                    return first;
                }
                assert(sx.drop_first() =~= vx.subrange(i + 1, vx.len() as int));
                assert(sy.drop_first() =~= vy.subrange(i + 1, vy.len() as int));
                i = i + 1;
            }
            if i < x.len() {
                1
            } else if i < y.len() {
                -1
            } else {
                0
            }
        },
        (Value::Mapping(x), Value::Mapping(y)) => {
            let ghost vx = value_view(*a)->Mapping_0;
            let ghost vy = value_view(*b)->Mapping_0;
            let mut i: usize = 0;
            assert(vx.subrange(0, vx.len() as int) =~= vx);
            assert(vy.subrange(0, vy.len() as int) =~= vy);
            while i < x.len() && i < y.len()
                invariant
                    *a == Value::Mapping(*x),
                    *b == Value::Mapping(*y),
                    vx == value_view(*a)->Mapping_0,
                    vy == value_view(*b)->Mapping_0,
                    vx.len() == x@.len(),
                    vy.len() == y@.len(),
                    i <= x@.len(),
                    i <= y@.len(),
                    entries_order(vx, vy) == entries_order(vx.subrange(i as int, vx.len() as int), vy.subrange(i as int, vy.len() as int)),
                decreases x@.len() - i,
            {
                let ghost sx = vx.subrange(i as int, vx.len() as int);
                let ghost sy = vy.subrange(i as int, vy.len() as int);
                assert(sx[0] == (value_view(x@[i as int].0), value_view(x@[i as int].1)));
                assert(sy[0] == (value_view(y@[i as int].0), value_view(y@[i as int].1)));
                proof {
                    assert(decreases_to!(*a => a->Mapping_0));
                    assert(decreases_to!(*x => x@));
                    assert(decreases_to!(x@ => x@[i as int]));
                    assert(decreases_to!(x@[i as int] => x@[i as int].0));
                    assert(decreases_to!(x@[i as int] => x@[i as int].1));
                }
                let key = compare_values(&x[i].0, &y[i].0);
                if key != 0 {
                    return key;
                }
                let value = compare_values(&x[i].1, &y[i].1);
                if value != 0 {
                    return value;
                }
                assert(sx.drop_first() =~= vx.subrange(i + 1, vx.len() as int));
                assert(sy.drop_first() =~= vy.subrange(i + 1, vy.len() as int));
                i = i + 1;
            }
            if i < x.len() {
                1
            } else if i < y.len() {
                -1
            } else {
                0
            }
        },
        _ => 0,
    }
}

// ----------------------------------------------------------------------------------------
// Traversal
// ----------------------------------------------------------------------------------------

/// The index of the first map entry whose key is equal (in order) to the key.
pub open spec fn entry_index(entries: Seq<(ValueView, ValueView)>, key: ValueView) -> Option<int> {
    if exists|i: int| 0 <= i < entries.len() && value_order((#[trigger] entries[i]).0, key) == 0 {
        Some(
            choose|i: int|
                0 <= i < entries.len() && value_order((#[trigger] entries[i]).0, key) == 0 && forall|j: int|
                    0 <= j < i ==> value_order((#[trigger] entries[j]).0, key) != 0,
        )
    } else {
        None
    }
}

/// What a key selects in a value: in a map, the value of the key; in a list, the element at
/// an integer index; nothing otherwise.
pub open spec fn value_get(v: ValueView, key: ValueView) -> Option<ValueView> {
    match v {
        ValueView::Mapping(entries) => match entry_index(entries, key) {
            Some(i) => Some(entries[i].1),
            None => None,
        },
        ValueView::List(items) => match key {
            ValueView::UnsignedInteger(index) => if index < items.len() {
                Some(items[index as int])
            } else {
                None
            },
            ValueView::Integer(index) => if 0 <= index < items.len() {
                Some(items[index as int])
            } else {
                None
            },
            _ => None,
        },
        _ => None,
    }
}

/// What a path of keys selects in a value, key after key.
pub open spec fn value_traverse(v: ValueView, path: Seq<ValueView>) -> Option<ValueView>
    decreases path.len(),
{
    if path.len() == 0 {
        Some(v)
    } else {
        match value_get(v, path[0]) {
            Some(next) => value_traverse(next, path.drop_first()),
            None => None,
        }
    }
}

/// What a key selects in a value.
pub fn get_value<'a>(v: &'a Value, key: &Value) -> (found: Option<&'a Value>)
    ensures
        found is Some <==> value_get(value_view(*v), value_view(*key)) is Some,
        found matches Some(f) ==> value_get(value_view(*v), value_view(*key)) == Some(value_view(*f)),
{
    match v {
        Value::Mapping(entries) => {
            let ghost views = value_view(*v)->Mapping_0;
            let mut i: usize = 0;
            while i < entries.len()
                invariant
                    *v == Value::Mapping(*entries),
                    views == value_view(*v)->Mapping_0,
                    views.len() == entries@.len(),
                    i <= entries@.len(),
                    forall|j: int| 0 <= j < i ==> value_order((#[trigger] views[j]).0, value_view(*key)) != 0,
                decreases entries@.len() - i,
            {
                assert(views[i as int] == (value_view(entries@[i as int].0), value_view(entries@[i as int].1)));
                if compare_values(&entries[i].0, key) == 0 {
                    proof {
                        let k = i as int;
                        let c = entry_index(views, value_view(*key))->0;
                        assert(0 <= c < views.len() && value_order(views[c].0, value_view(*key)) == 0);
                        if c < k {
                        } else if c > k {
                        }
                        assert(c == k);
                    }
                    return Some(&entries[i].1);
                }
                i = i + 1;
            }
            None
        },
        Value::List(items) => {
            let ghost views = value_view(*v)->List_0;
            match key {
                Value::UnsignedInteger(index) => {
                    if *index < items.len() as u64 {
                        assert(views[*index as int] == value_view(items@[*index as int]));
                        Some(&items[*index as usize])
                    } else {
                        None
                    }
                },
                Value::Integer(index) => {
                    if 0 <= *index && (*index as u64) < items.len() as u64 {
                        assert(views[*index as int] == value_view(items@[*index as int]));
                        Some(&items[*index as usize])
                    } else {
                        None
                    }
                },
                _ => None,
            }
        },
        _ => None,
    }
}

/// What a path of keys selects in a value, key after key.
pub fn traverse<'a>(v: &'a Value, path: &Vec<Value>) -> (found: Option<&'a Value>)
    ensures
        found is Some <==> value_traverse(value_view(*v), path@.map_values(|key: Value| value_view(key))) is Some,
        found matches Some(f) ==> value_traverse(value_view(*v), path@.map_values(|key: Value| value_view(key)))
            == Some(value_view(*f)),
{
    let ghost keys = path@.map_values(|key: Value| value_view(key));
    let mut current = v;
    let mut i: usize = 0;
    assert(keys.subrange(0, keys.len() as int) =~= keys);
    while i < path.len()
        invariant
            i <= path@.len(),
            keys == path@.map_values(|key: Value| value_view(key)),
            value_traverse(value_view(*v), keys) == value_traverse(
                value_view(*current),
                keys.subrange(i as int, keys.len() as int),
            ),
        decreases path@.len() - i,
    {
        let ghost rest = keys.subrange(i as int, keys.len() as int);
        assert(rest[0] == value_view(path@[i as int]));
        assert(rest.drop_first() =~= keys.subrange(i + 1, keys.len() as int));
        match get_value(current, &path[i]) {
            Some(next) => {
                current = next;
            },
            None => return None,
        }
        i = i + 1;
    }
    Some(current)
}

} // verus!
