//! Normal values (what annotations, variables and catalogs hold) and variable maps.
use vstd::prelude::*;

use crate::util::decimal::{decimal, to_decimal};

verus! {

/// A normal value.
#[derive(Debug)]
pub enum Value {
    /// Null.
    Null,
    /// Boolean.
    Boolean(bool),
    /// Integer.
    Integer(i64),
    /// Unsigned integer.
    UnsignedInteger(u64),
    /// Float, held as its IEEE 754 bits.
    Float(u64),
    /// Text.
    Text(String),
    /// Blob.
    Blob(Vec<u8>),
    /// List.
    List(Vec<Value>),
    /// Map, as key-value pairs.
    Mapping(Vec<(Value, Value)>),
}

/// What a value holds, as mathematical values.
#[verifier::ext_equal]
pub enum ValueView {
    /// Null.
    Null,
    /// Boolean.
    Boolean(bool),
    /// Integer.
    Integer(i64),
    /// Unsigned integer.
    UnsignedInteger(u64),
    /// Float bits.
    Float(u64),
    /// Text.
    Text(Seq<char>),
    /// Blob.
    Blob(Seq<u8>),
    /// List.
    List(Seq<ValueView>),
    /// Map.
    Mapping(Seq<(ValueView, ValueView)>),
}

/// What a value holds.
pub open spec fn value_view(v: Value) -> ValueView
    decreases v,
{
    match v {
        Value::Null => ValueView::Null,
        Value::Boolean(b) => ValueView::Boolean(b),
        Value::Integer(i) => ValueView::Integer(i),
        Value::UnsignedInteger(u) => ValueView::UnsignedInteger(u),
        Value::Float(bits) => ValueView::Float(bits),
        Value::Text(text) => ValueView::Text(text@),
        Value::Blob(blob) => ValueView::Blob(blob@),
        Value::List(list) => ValueView::List(
            Seq::new(
                list@.len(),
                |i: int|
                    if 0 <= i < list@.len() {
                        value_view(list@[i])
                    } else {
                        ValueView::Null
                    },
            ),
        ),
        Value::Mapping(map) => ValueView::Mapping(
            Seq::new(
                map@.len(),
                |i: int|
                    if 0 <= i < map@.len() {
                        (value_view(map@[i].0), value_view(map@[i].1))
                    } else {
                        (ValueView::Null, ValueView::Null)
                    },
            ),
        ),
    }
}

impl Value {
    /// A copy of this value.
    pub fn duplicate(&self) -> (copy: Value)
        ensures
            value_view(copy) == value_view(*self),
        decreases self,
    {
        match self {
            Value::Null => Value::Null,
            Value::Boolean(b) => Value::Boolean(*b),
            Value::Integer(i) => Value::Integer(*i),
            Value::UnsignedInteger(u) => Value::UnsignedInteger(*u),
            Value::Float(bits) => Value::Float(*bits),
            Value::Text(text) => Value::Text(text.clone()),
            Value::Blob(blob) => Value::Blob(blob.clone()),
            Value::List(list) => {
                let mut copy: Vec<Value> = Vec::new();
                let mut i: usize = 0;
                while i < list.len()
                    invariant
                        *self == Value::List(*list),
                        i <= list@.len(),
                        copy@.len() == i,
                        forall|k: int| 0 <= k < i ==> value_view(#[trigger] copy@[k]) == value_view(list@[k]),
                    decreases list@.len() - i,
                {
                    proof {
                        assert(decreases_to!(*self => self->List_0));
                        assert(decreases_to!(*list => list@));
                        assert(decreases_to!(list@ => list@[i as int]));
                    }
                    let item = list[i].duplicate();
                    copy.push(item);
                    i = i + 1;
                }
                let ghost a = Seq::new(copy@.len(), |k: int| if 0 <= k < copy@.len() { value_view(copy@[k]) } else { ValueView::Null });
                let ghost b = Seq::new(list@.len(), |k: int| if 0 <= k < list@.len() { value_view(list@[k]) } else { ValueView::Null });
                assert(a =~= b);
                let ghost copied = copy@;
                let result = Value::List(copy);
                assert(value_view(result)->List_0.len() == copied.len());
                assert(forall|k: int| 0 <= k < copied.len() ==> value_view(result)->List_0[k] == value_view(copied[k]));
                assert(value_view(result)->List_0 =~= a);
                assert(value_view(*self)->List_0 =~= b);
                let copy = result;
                copy
            },
            Value::Mapping(map) => {
                let mut copy: Vec<(Value, Value)> = Vec::new();
                let mut i: usize = 0;
                while i < map.len()
                    invariant
                        *self == Value::Mapping(*map),
                        i <= map@.len(),
                        copy@.len() == i,
                        forall|k: int| 0 <= k < i ==> value_view(#[trigger] copy@[k].0) == value_view(map@[k].0) && value_view(copy@[k].1) == value_view(map@[k].1),
                    decreases map@.len() - i,
                {
                    proof {
                        assert(decreases_to!(*self => self->Mapping_0));
                        assert(decreases_to!(*map => map@));
                        assert(decreases_to!(map@ => map@[i as int]));
                        assert(decreases_to!(map@[i as int] => map@[i as int].0));
                        assert(decreases_to!(map@[i as int] => map@[i as int].1));
                    }
                    let key = map[i].0.duplicate();
                    let value = map[i].1.duplicate();
                    copy.push((key, value));
                    i = i + 1;
                }
                let ghost a = Seq::new(copy@.len(), |k: int| if 0 <= k < copy@.len() { (value_view(copy@[k].0), value_view(copy@[k].1)) } else { (ValueView::Null, ValueView::Null) });
                let ghost b = Seq::new(map@.len(), |k: int| if 0 <= k < map@.len() { (value_view(map@[k].0), value_view(map@[k].1)) } else { (ValueView::Null, ValueView::Null) });
                assert(a =~= b);
                let ghost copied = copy@;
                let result = Value::Mapping(copy);
                assert(value_view(result)->Mapping_0.len() == copied.len());
                assert(forall|k: int| 0 <= k < copied.len() ==> value_view(result)->Mapping_0[k] == (value_view(copied[k].0), value_view(copied[k].1)));
                assert(value_view(result)->Mapping_0 =~= a);
                assert(value_view(*self)->Mapping_0 =~= b);
                let copy = result;
                copy
            },
        }
    }
}

/// Variables: named values, the first entry of a name being the one that counts.
pub type Variables = Vec<(String, Value)>;

/// The map that a list of variables stands for.
pub open spec fn variables_map(vars: Seq<(String, Value)>) -> Map<Seq<char>, Value>
    decreases vars.len(),
{
    if vars.len() == 0 {
        Map::empty()
    } else {
        let m = variables_map(vars.drop_last());
        let (key, value) = vars.last();
        if m.contains_key(key@) {
            m
        } else {
            m.insert(key@, value)
        }
    }
}

/// Whether a variable is set.
pub fn contains_variable(vars: &Variables, key: &str) -> (contains: bool)
    ensures
        contains == variables_map(vars@).contains_key(key@),
{
    let mut i: usize = 0;
    while i < vars.len()
        invariant
            i <= vars@.len(),
            variables_map(vars@.take(i as int)).contains_key(key@) == false,
        decreases vars@.len() - i,
    {
        assert(vars@.take(i + 1).drop_last() =~= vars@.take(i as int));
        if crate::text::str_eq(vars[i].0.as_str(), key) {
            proof {
                lemma_variables_map_grows(vars@, (i + 1) as int, key@);
            }
            return true;
        }
        i = i + 1;
    }
    assert(vars@.take(vars@.len() as int) =~= vars@);
    false
}

/// The value of a variable.
pub fn get_variable<'a>(vars: &'a Variables, key: &str) -> (value: Option<&'a Value>)
    ensures
        value matches Some(v) ==> variables_map(vars@).contains_key(key@) && variables_map(vars@)[key@] == *v,
        value is None ==> !variables_map(vars@).contains_key(key@),
{
    let mut i: usize = 0;
    while i < vars.len()
        invariant
            i <= vars@.len(),
            variables_map(vars@.take(i as int)).contains_key(key@) == false,
        decreases vars@.len() - i,
    {
        assert(vars@.take(i + 1).drop_last() =~= vars@.take(i as int));
        if crate::text::str_eq(vars[i].0.as_str(), key) {
            proof {
                lemma_variables_map_grows(vars@, (i + 1) as int, key@);
            }
            return Some(&vars[i].1);
        }
        i = i + 1;
    }
    assert(vars@.take(vars@.len() as int) =~= vars@);
    None
}

/// Once a prefix of the variables sets a name, the whole list maps it to the same value.
pub proof fn lemma_variables_map_grows(vars: Seq<(String, Value)>, n: int, key: Seq<char>)
    requires
        0 <= n <= vars.len(),
        variables_map(vars.take(n)).contains_key(key),
    ensures
        variables_map(vars).contains_key(key),
        variables_map(vars)[key] == variables_map(vars.take(n))[key],
    decreases vars.len() - n,
{
    if n < vars.len() {
        assert(vars.take(n + 1).drop_last() =~= vars.take(n));
        lemma_variables_map_grows(vars, n + 1, key);
    } else {
        assert(vars.take(n) =~= vars);
    }
}

/// Sets a variable, replacing any value it had.
pub fn insert_variable(vars: &mut Variables, key: String, value: Value)
    ensures
        variables_map(final(vars)@) == variables_map(old(vars)@).insert(key@, value),
{
    let ghost k = key@;
    let mut kept: Variables = Vec::new();
    let mut rest: Variables = Vec::new();
    // Take the entries out, keeping their order.
    let ghost original = vars@;
    while vars.len() > 0
        invariant
            rest@ + vars@.reverse() == original.reverse(),
        decreases vars@.len(),
    {
        let ghost before = vars@;
        let entry = vars.pop().unwrap();
        proof {
            assert(before == vars@.push(entry));
            assert(before.reverse() =~= seq![entry] + vars@.reverse());
            assert(rest@.push(entry) + vars@.reverse() =~= rest@ + before.reverse());
        }
        rest.push(entry);
    }
    proof {
        assert(vars@.reverse() =~= Seq::<(String, Value)>::empty());
        assert(rest@ =~= original.reverse());
    }
    let n = rest.len();
    let mut i: usize = 0;
    assert(variables_map(kept@) =~= variables_map(original.take(0)).remove(k));
    while i < n
        invariant
            n == original.len(),
            rest@.len() == n - i,
            forall|j: int| 0 <= j < n - i ==> #[trigger] rest@[j] == original[n - 1 - j],
            i <= n,
            k == key@,
            variables_map(kept@) == variables_map(original.take(i as int)).remove(k),
        decreases n - i,
    {
        let ghost before_rest = rest@;
        let entry = rest.pop().unwrap();
        proof {
            assert(before_rest[n - i - 1] == entry);
            assert(entry == original[i as int]);
            assert forall|j: int| 0 <= j < n - i - 1 implies #[trigger] rest@[j] == original[n - 1 - j] by {
                assert(rest@[j] == before_rest[j]);
            }
            assert(original.take(i + 1).drop_last() =~= original.take(i as int));
        }
        if !crate::text::str_eq(entry.0.as_str(), key.as_str()) {
            let ghost before_kept = kept@;
            kept.push(entry);
            proof {
                assert(kept@.drop_last() =~= before_kept);
                assert(variables_map(kept@) =~= variables_map(original.take(i + 1)).remove(k));
            }
        } else {
            proof {
                assert(variables_map(kept@) =~= variables_map(original.take(i + 1)).remove(k));
            }
        }
        i = i + 1;
    }
    proof {
        assert(original.take(n as int) =~= original);
    }
    let ghost before_kept = kept@;
    kept.push((key, value));
    proof {
        assert(kept@.drop_last() =~= before_kept);
        assert(variables_map(kept@) =~= variables_map(original).insert(k, value));
    }
    *vars = kept;
}

/// The values that a list of variables maps its names to.
pub open spec fn variables_view(vars: Seq<(String, Value)>) -> Map<Seq<char>, ValueView> {
    variables_map(vars).map_values(|v: Value| value_view(v))
}

/// Sets a variable, replacing any value it had (stated over what the values hold).
pub fn set_variable(vars: &mut Variables, key: String, value: Value)
    ensures
        variables_map(final(vars)@) == variables_map(old(vars)@).insert(key@, value),
        variables_view(final(vars)@) == variables_view(old(vars)@).insert(key@, value_view(value)),
{
    let ghost k = key@;
    let ghost v = value;
    insert_variable(vars, key, value);
    assert(variables_view(vars@) =~= variables_view(old(vars)@).insert(k, value_view(v)));
}

/// A whole number in decimal, with a minus sign when negative.
pub open spec fn signed_decimal(i: int) -> Seq<char> {
    if i < 0 {
        seq!['-'] + decimal((-i) as nat)
    } else {
        decimal(i as nat)
    }
}

/// How a value is written as text (`compris`'s `Display` of the value it stands for): null as
/// "Null", numbers in decimal followed by their type ("i64", "u64"), booleans as "true" or
/// "false", text as itself, a blob by its size in bytes, lists and maps in brackets and braces
/// with their items (and a colon between key and value) separated by commas. `None` when a
/// float occurs, which is written as floating-point numbers are.
pub open spec fn value_display(v: ValueView) -> Option<Seq<char>>
    decreases v, 0nat,
{
    match v {
        ValueView::Null => Some("Null"@),
        ValueView::Boolean(b) => Some(if b { "true"@ } else { "false"@ }),
        ValueView::Integer(i) => Some(signed_decimal(i as int) + "i64"@),
        ValueView::UnsignedInteger(u) => Some(decimal(u as nat) + "u64"@),
        ValueView::Float(_) => None,
        ValueView::Text(text) => Some(text),
        ValueView::Blob(blob) => Some(decimal(blob.len()) + " bytes"@),
        ValueView::List(items) => match items_display(items, items.len()) {
            Some(text) => Some(seq!['['] + text + seq![']']),
            None => None,
        },
        ValueView::Mapping(entries) => match entries_display(entries, entries.len()) {
            Some(text) => Some(seq!['{'] + text + seq!['}']),
            None => None,
        },
    }
}

/// The first `n` items written and separated by commas.
pub open spec fn items_display(items: Seq<ValueView>, n: nat) -> Option<Seq<char>>
    decreases items, n,
{
    if n == 0 {
        Some(Seq::empty())
    } else if n > items.len() {
        None
    } else {
        match (items_display(items, (n - 1) as nat), value_display(items[n - 1])) {
            (Some(before), Some(item)) => Some(if n == 1 { item } else { before + seq![','] + item }),
            _ => None,
        }
    }
}

/// The first `n` entries written as key, colon and value, separated by commas.
pub open spec fn entries_display(entries: Seq<(ValueView, ValueView)>, n: nat) -> Option<Seq<char>>
    decreases entries, n,
{
    if n == 0 {
        Some(Seq::empty())
    } else if n > entries.len() {
        None
    } else {
        proof {
            assert(decreases_to!(entries => entries[n - 1]));
            assert(decreases_to!(entries[n - 1] => entries[n - 1].0));
            assert(decreases_to!(entries[n - 1] => entries[n - 1].1));
        }
        match (entries_display(entries, (n - 1) as nat), value_display(entries[n - 1].0), value_display(entries[n - 1].1)) {
            (Some(before), Some(key), Some(value)) => {
                let entry = key + seq![':'] + value;
                Some(if n == 1 { entry } else { before + seq![','] + entry })
            },
            _ => None,
        }
    }
}

/// A whole number in decimal, with a minus sign when negative.
fn signed_decimal_exec(i: i64) -> (text: String)
    ensures
        text@ == signed_decimal(i as int),
{
    if i < 0 {
        let magnitude = (0 - (i as i128)) as u64;
        proof {
            reveal_strlit("-");
            assert(seq!['-'] =~= "-"@);
        }
        String::from_str("-").concat(to_decimal(magnitude).as_str())
    } else {
        to_decimal(i as u64)
    }
}

/// How a value is written as text, unless a float occurs in it.
pub fn display_value(v: &Value) -> (text: Option<String>)
    ensures
        match value_display(value_view(*v)) {
            Some(stated) => text matches Some(t) && t@ == stated,
            None => text is None,
        },
    decreases v,
{
    match v {
        Value::Null => Some(String::from_str("Null")),
        Value::Boolean(b) => Some(if *b { String::from_str("true") } else { String::from_str("false") }),
        Value::Integer(i) => Some(signed_decimal_exec(*i).concat("i64")),
        Value::UnsignedInteger(u) => Some(to_decimal(*u).concat("u64")),
        Value::Float(_) => None,
        Value::Text(text) => Some(String::from_str(text.as_str())),
        Value::Blob(blob) => Some(to_decimal(blob.len() as u64).concat(" bytes")),
        Value::List(list) => {
            let ghost items = value_view(*v)->List_0;
            assert(items.len() == list@.len());
            proof {
                reveal_strlit(",");
                reveal_strlit("[");
                reveal_strlit("]");
                assert(","@ =~= seq![',']);
                assert("["@ =~= seq!['[']);
                assert("]"@ =~= seq![']']);
            }
            let mut text = String::new();
            let mut i: usize = 0;
            while i < list.len()
                invariant
                    *v == Value::List(*list),
                    items == value_view(*v)->List_0,
                    items.len() == list@.len(),
                    i <= list@.len(),
                    items_display(items, i as nat) == Some(text@),
                decreases list@.len() - i,
            {
                proof {
                    reveal_strlit(",");
                    assert(","@ =~= seq![',']);
                }
                proof {
                    assert(decreases_to!(*v => v->List_0));
                    assert(decreases_to!(*list => list@));
                    assert(decreases_to!(list@ => list@[i as int]));
                }
                assert(items[i as int] == value_view(list@[i as int]));
                match display_value(&list[i]) {
                    Some(item) => {
                        if i == 0 {
                            text = item;
                        } else {
                            text = text.concat(",").concat(item.as_str());
                        }
                    },
                    None => {
                        proof {
                            lemma_items_display_fails(items, (i + 1) as nat, items.len());
                        }
                        return None;
                    },
                }
                i = i + 1;
            }
            Some(String::from_str("[").concat(text.as_str()).concat("]"))
        },
        Value::Mapping(map) => {
            let ghost entries = value_view(*v)->Mapping_0;
            assert(entries.len() == map@.len());
            proof {
                reveal_strlit(",");
                reveal_strlit(":");
                reveal_strlit("{");
                reveal_strlit("}");
                assert(","@ =~= seq![',']);
                assert(":"@ =~= seq![':']);
                assert("{"@ =~= seq!['{']);
                assert("}"@ =~= seq!['}']);
            }
            let mut text = String::new();
            let mut i: usize = 0;
            while i < map.len()
                invariant
                    *v == Value::Mapping(*map),
                    entries == value_view(*v)->Mapping_0,
                    entries.len() == map@.len(),
                    i <= map@.len(),
                    entries_display(entries, i as nat) == Some(text@),
                decreases map@.len() - i,
            {
                proof {
                    reveal_strlit(",");
                    reveal_strlit(":");
                    assert(","@ =~= seq![',']);
                    assert(":"@ =~= seq![':']);
                }
                proof {
                    assert(decreases_to!(*v => v->Mapping_0));
                    assert(decreases_to!(*map => map@));
                    assert(decreases_to!(map@ => map@[i as int]));
                    assert(decreases_to!(map@[i as int] => map@[i as int].0));
                    assert(decreases_to!(map@[i as int] => map@[i as int].1));
                }
                assert(entries[i as int] == (value_view(map@[i as int].0), value_view(map@[i as int].1)));
                let key = display_value(&map[i].0);
                let value = display_value(&map[i].1);
                match (key, value) {
                    (Some(key), Some(value)) => {
                        let entry = key.concat(":").concat(value.as_str());
                        if i == 0 {
                            text = entry;
                        } else {
                            text = text.concat(",").concat(entry.as_str());
                        }
                    },
                    _ => {
                        proof {
                            lemma_entries_display_fails(entries, (i + 1) as nat, entries.len());
                        }
                        return None;
                    },
                }
                i = i + 1;
            }
            Some(String::from_str("{").concat(text.as_str()).concat("}"))
        },
    }
}

/// Once an item cannot be written, the list cannot.
proof fn lemma_items_display_fails(items: Seq<ValueView>, n: nat, m: nat)
    requires
        n <= m <= items.len(),
        items_display(items, n) is None,
    ensures
        items_display(items, m) is None,
    decreases m - n,
{
    if n < m {
        lemma_items_display_fails(items, n, (m - 1) as nat);
    }
}

/// Once an entry cannot be written, the map cannot.
proof fn lemma_entries_display_fails(entries: Seq<(ValueView, ValueView)>, n: nat, m: nat)
    requires
        n <= m <= entries.len(),
        entries_display(entries, n) is None,
    ensures
        entries_display(entries, m) is None,
    decreases m - n,
{
    if n < m {
        lemma_entries_display_fails(entries, n, (m - 1) as nat);
    }
}

} // verus!
