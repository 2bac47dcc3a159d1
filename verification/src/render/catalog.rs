//! Catalog of the rendered pages in a directory: its entries and their order.
use vstd::prelude::*;

use crate::text::{chars_of, lex_order, lex_order_exec, lower, str_eq, to_lowercase};
use crate::value::{Value, ValueView, value_view};

verus! {

//
// Sort
//

/// Catalog sort.
#[derive(Debug, Clone, Copy, PartialEq, Eq, Structural)]
pub enum Sort {
    /// Alphabetical by title, ignoring case.
    Alpha,
    /// By creation time.
    Created,
    /// By update time.
    Updated,
}

impl Default for Sort {
    fn default() -> (sort: Self)
        ensures
            sort == Sort::Alpha,
    {
        Sort::Alpha
    }
}

/// The sort that a representation names, compared without case.
pub open spec fn spec_sort_from_str(representation: Seq<char>) -> Option<Sort> {
    let lowered = lower(representation);
    if lowered == "alpha"@ {
        Some(Sort::Alpha)
    } else if lowered == "created"@ {
        Some(Sort::Created)
    } else if lowered == "updated"@ {
        Some(Sort::Updated)
    } else {
        None
    }
}

impl Sort {
    /// Parses a sort name, ignoring case ("alpha", "created", "updated").
    pub fn from_str(representation: &str) -> (sort: Result<Sort, String>)
        ensures
            sort is Ok <==> spec_sort_from_str(representation@) is Some,
            sort matches Ok(s) ==> spec_sort_from_str(representation@) == Some(s),
            sort matches Err(message) ==> message@ == "unsupported: "@ + representation@,
    {
        let lowered = to_lowercase(representation);
        let lowered = lowered.as_str();
        proof {
            reveal_strlit("alpha");
            reveal_strlit("created");
            reveal_strlit("updated");
        }
        if str_eq(lowered, "alpha") {
            Ok(Sort::Alpha)
        } else if str_eq(lowered, "created") {
            Ok(Sort::Created)
        } else if str_eq(lowered, "updated") {
            Ok(Sort::Updated)
        } else {
            Err(String::from_str("unsupported: ").concat(representation))
        }
    }
}

//
// CatalogEntry
//

/// Catalog entry: one rendered page of the directory.
#[derive(Debug, Clone)]
pub struct CatalogEntry {
    /// Title.
    pub title: String,
    /// Link.
    pub href: String,
    /// Creation timestamp (0 when unknown).
    pub created: i64,
    /// Update timestamp (0 when unknown).
    pub updated: i64,
}

/// Sign of `a - b`: -1, 0 or 1.
pub open spec fn int_order(a: int, b: int) -> int {
    if a < b {
        -1
    } else if a > b {
        1
    } else {
        0
    }
}

/// How two entries compare under a sort: -1, 0 or 1.
pub open spec fn entry_order(sort: Sort, a: CatalogEntry, b: CatalogEntry) -> int {
    match sort {
        Sort::Alpha => lex_order(lower(a.title@), lower(b.title@)),
        Sort::Created => int_order(a.created as int, b.created as int),
        Sort::Updated => int_order(a.updated as int, b.updated as int),
    }
}

/// `a` may come before `b` under a sort.
pub open spec fn entry_le(sort: Sort, a: CatalogEntry, b: CatalogEntry) -> bool {
    entry_order(sort, a, b) <= 0
}

/// `s` is ordered under a sort.
pub open spec fn is_sorted(sort: Sort, s: Seq<CatalogEntry>) -> bool {
    forall|k: int, l: int| 0 <= k < l < s.len() ==> entry_le(sort, #[trigger] s[k], #[trigger] s[l])
}

/// `perm` is a permutation of the indices `0..n`.
pub open spec fn is_permutation(perm: Seq<int>, n: int) -> bool {
    &&& perm.len() == n
    &&& forall|k: int| 0 <= k < n ==> 0 <= #[trigger] perm[k] < n
    &&& forall|k: int, l: int| 0 <= k < l < n ==> #[trigger] perm[k] != #[trigger] perm[l]
}

/// `sorted` is `original` stably sorted: it is ordered, it holds the same entries, and entries
/// that compare equal keep their original relative order.
pub open spec fn is_stable_sort_of(sort: Sort, original: Seq<CatalogEntry>, sorted: Seq<CatalogEntry>) -> bool {
    &&& is_sorted(sort, sorted)
    &&& exists|perm: Seq<int>| is_stable_permutation(sort, original, sorted, perm)
}

/// `perm` takes `original` to `sorted`, and keeps entries that compare equal in order.
pub open spec fn is_stable_permutation(
    sort: Sort,
    original: Seq<CatalogEntry>,
    sorted: Seq<CatalogEntry>,
    perm: Seq<int>,
) -> bool {
    &&& sorted.len() == original.len()
    &&& is_permutation(perm, original.len() as int)
    &&& forall|k: int| 0 <= k < sorted.len() ==> #[trigger] sorted[k] == original[perm[k]]
    &&& forall|k: int, l: int|
        0 <= k < l < sorted.len() && entry_order(sort, #[trigger] sorted[k], #[trigger] sorted[l])
            == 0 ==> perm[k] < perm[l]
}

// ----------------------------------------------------------------------------------------
// Order lemmas
// ----------------------------------------------------------------------------------------

/// Swapping the arguments of `lex_order` negates it.
pub proof fn lemma_lex_order_antisymmetric(a: Seq<char>, b: Seq<char>)
    ensures
        lex_order(a, b) == -lex_order(b, a),
    decreases a.len(),
{
    if a.len() > 0 && b.len() > 0 && (a[0] as u32) == (b[0] as u32) {
        lemma_lex_order_antisymmetric(a.drop_first(), b.drop_first());
    }
}

/// `lex_order` is a transitive order.
pub proof fn lemma_lex_order_transitive(a: Seq<char>, b: Seq<char>, c: Seq<char>)
    requires
        lex_order(a, b) <= 0,
        lex_order(b, c) <= 0,
    ensures
        lex_order(a, c) <= 0,
    decreases a.len(),
{
    if a.len() > 0 && b.len() > 0 && c.len() > 0 && (a[0] as u32) == (b[0] as u32) && (b[0] as u32)
        == (c[0] as u32) {
        lemma_lex_order_transitive(a.drop_first(), b.drop_first(), c.drop_first());
    }
}

/// `lex_order` is in -1..=1.
pub proof fn lemma_lex_order_range(a: Seq<char>, b: Seq<char>)
    ensures
        -1 <= lex_order(a, b) <= 1,
    decreases a.len(),
{
    if a.len() > 0 && b.len() > 0 && (a[0] as u32) == (b[0] as u32) {
        lemma_lex_order_range(a.drop_first(), b.drop_first());
    }
}

/// Entry order: antisymmetric, transitive, total.
pub proof fn lemma_entry_order(sort: Sort, a: CatalogEntry, b: CatalogEntry, c: CatalogEntry)
    ensures
        entry_order(sort, a, b) == -entry_order(sort, b, a),
        -1 <= entry_order(sort, a, b) <= 1,
        entry_le(sort, a, b) && entry_le(sort, b, c) ==> entry_le(sort, a, c),
{
    match sort {
        Sort::Alpha => {
            lemma_lex_order_antisymmetric(lower(a.title@), lower(b.title@));
            lemma_lex_order_range(lower(a.title@), lower(b.title@));
            if entry_le(sort, a, b) && entry_le(sort, b, c) {
                lemma_lex_order_transitive(
                    lower(a.title@),
                    lower(b.title@),
                    lower(c.title@),
                );
            }
        },
        _ => {},
    }
}

// ----------------------------------------------------------------------------------------
// Executable
// ----------------------------------------------------------------------------------------

/// How two entries compare under a sort: -1, 0 or 1.
pub fn compare_entries(sort: Sort, a: &CatalogEntry, b: &CatalogEntry) -> (r: i8)
    ensures
        r as int == entry_order(sort, *a, *b),
{
    match sort {
        Sort::Alpha => {
            let a_lower = to_lowercase(a.title.as_str());
            let b_lower = to_lowercase(b.title.as_str());
            let a_chars = chars_of(a_lower.as_str());
            let b_chars = chars_of(b_lower.as_str());
            lex_order_exec(&a_chars, &b_chars)
        },
        Sort::Created => if a.created < b.created {
            -1
        } else if a.created > b.created {
            1
        } else {
            0
        },
        Sort::Updated => if a.updated < b.updated {
            -1
        } else if a.updated > b.updated {
            1
        } else {
            0
        },
    }
}

/// Sort the catalog stably (entries that compare equal keep their order).
pub fn sort_catalog(catalog: &mut Vec<CatalogEntry>, sort: Sort)
    ensures
        is_stable_sort_of(sort, old(catalog)@, final(catalog)@),
{
    let ghost original = catalog@;
    let mut sorted: Vec<CatalogEntry> = Vec::new();
    let ghost mut perm: Seq<int> = Seq::empty();
    let mut rest: Vec<CatalogEntry> = Vec::new();
    // Move the entries out, keeping their order.
    while catalog.len() > 0
        invariant
            rest@ + catalog@.reverse() == original.reverse(),
        decreases catalog@.len(),
    {
        let ghost before = catalog@;
        let entry = catalog.pop().unwrap();
        proof {
            assert(before == catalog@.push(entry));
            assert(before.reverse() =~= seq![entry] + catalog@.reverse());
            assert(rest@.push(entry) + catalog@.reverse() =~= rest@ + before.reverse());
        }
        rest.push(entry);
    }
    proof {
        assert(catalog@.reverse() =~= Seq::<CatalogEntry>::empty());
        assert(rest@ =~= original.reverse());
    }
    let n = rest.len();
    let mut i: usize = 0;
    while i < n
        invariant
            n == original.len(),
            rest@.len() == n - i,
            forall|k: int| 0 <= k < n - i ==> #[trigger] rest@[k] == original[n - 1 - k],
            i <= n,
            is_sorted(sort, sorted@),
            is_stable_permutation(sort, original.take(i as int), sorted@, perm),
        decreases n - i,
    {
        let ghost before_rest = rest@;
        let x = rest.pop().unwrap();
        proof {
            assert(before_rest[n - i - 1] == x);
            assert(x == original[i as int]);
            assert forall|k: int| 0 <= k < n - i - 1 implies #[trigger] rest@[k] == original[n - 1 - k] by {
                assert(rest@[k] == before_rest[k]);
            }
        }
        // Insert after every entry that does not compare greater than `x`.
        let mut p = sorted.len();
        while p > 0 && compare_entries(sort, &sorted[p - 1], &x) > 0
            invariant
                p <= sorted@.len(),
                forall|k: int| p <= k < sorted@.len() ==> entry_order(sort, #[trigger] sorted@[k], x) > 0,
            decreases p,
        {
            p = p - 1;
        }
        let ghost old_sorted = sorted@;
        let ghost old_perm = perm;
        proof {
            assert forall|k: int| 0 <= k < p implies entry_le(sort, #[trigger] old_sorted[k], x) by {
                if p > 0 {
                    lemma_entry_order(sort, old_sorted[k], old_sorted[p - 1], x);
                    if k < p - 1 {
                        assert(entry_le(sort, old_sorted[k], old_sorted[p - 1]));
                    }
                }
            }
        }
        sorted.insert(p, x);
        proof {
            perm = old_perm.insert(p as int, i as int);
            let new_sorted = sorted@;
            assert(new_sorted =~= old_sorted.insert(p as int, x));
            assert forall|k: int, l: int| 0 <= k < l < new_sorted.len() implies entry_le(
                sort,
                #[trigger] new_sorted[k],
                #[trigger] new_sorted[l],
            ) by {
                if l < p {
                    assert(new_sorted[k] == old_sorted[k] && new_sorted[l] == old_sorted[l]);
                } else if l == p {
                    assert(new_sorted[k] == old_sorted[k]);
                } else if k < p {
                    assert(new_sorted[k] == old_sorted[k] && new_sorted[l] == old_sorted[l - 1]);
                } else if k == p {
                    assert(new_sorted[l] == old_sorted[l - 1]);
                    lemma_entry_order(sort, old_sorted[l - 1], x, x);
                } else {
                    assert(new_sorted[k] == old_sorted[k - 1] && new_sorted[l] == old_sorted[l - 1]);
                }
            }
            let taken = original.take(i + 1);
            assert forall|k: int| 0 <= k < new_sorted.len() implies #[trigger] new_sorted[k]
                == taken[perm[k]] by {
                if k < p {
                    assert(perm[k] == old_perm[k]);
                } else if k > p {
                    assert(perm[k] == old_perm[k - 1]);
                }
            }
            assert forall|k: int| 0 <= k < i + 1 implies 0 <= #[trigger] perm[k] < i + 1 by {
                if k < p {
                    assert(perm[k] == old_perm[k]);
                } else if k > p {
                    assert(perm[k] == old_perm[k - 1]);
                }
            }
            assert forall|k: int, l: int| 0 <= k < l < i + 1 implies #[trigger] perm[k]
                != #[trigger] perm[l] by {
                if k < p && l < p {
                    assert(perm[k] == old_perm[k] && perm[l] == old_perm[l]);
                } else if k < p && l == p {
                    assert(perm[k] == old_perm[k]);
                } else if k < p && l > p {
                    assert(perm[k] == old_perm[k] && perm[l] == old_perm[l - 1]);
                } else if k == p {
                    assert(perm[l] == old_perm[l - 1]);
                } else {
                    assert(perm[k] == old_perm[k - 1] && perm[l] == old_perm[l - 1]);
                }
            }
            assert forall|k: int, l: int|
                0 <= k < l < new_sorted.len() && entry_order(
                    sort,
                    #[trigger] new_sorted[k],
                    #[trigger] new_sorted[l],
                ) == 0 implies perm[k] < perm[l] by {
                if k < p && l < p {
                    assert(perm[k] == old_perm[k] && perm[l] == old_perm[l]);
                    assert(new_sorted[k] == old_sorted[k] && new_sorted[l] == old_sorted[l]);
                } else if k < p && l == p {
                    assert(perm[k] == old_perm[k]);
                } else if k < p && l > p {
                    assert(perm[k] == old_perm[k] && perm[l] == old_perm[l - 1]);
                    assert(new_sorted[k] == old_sorted[k] && new_sorted[l] == old_sorted[l - 1]);
                } else if k == p {
                    assert(new_sorted[l] == old_sorted[l - 1]);
                    lemma_entry_order(sort, old_sorted[l - 1], x, x);
                } else {
                    assert(perm[k] == old_perm[k - 1] && perm[l] == old_perm[l - 1]);
                    assert(new_sorted[k] == old_sorted[k - 1] && new_sorted[l] == old_sorted[l - 1]);
                }
            }
        }
        i = i + 1;
    }
    proof {
        assert(original.take(n as int) =~= original);
    }
    *catalog = sorted;
}

/// What a catalog entry holds as a value: a map of "title", "href", "created", "updated".
pub open spec fn entry_view(entry: CatalogEntry) -> ValueView {
    ValueView::Mapping(
        seq![
            (ValueView::Text("title"@), ValueView::Text(entry.title@)),
            (ValueView::Text("href"@), ValueView::Text(entry.href@)),
            (ValueView::Text("created"@), ValueView::Integer(entry.created)),
            (ValueView::Text("updated"@), ValueView::Integer(entry.updated)),
        ],
    )
}

/// A catalog entry as a value.
pub fn entry_value(entry: CatalogEntry) -> (value: Value)
    ensures
        value_view(value) == entry_view(entry),
{
    let ghost e = entry;
    let mut map: Vec<(Value, Value)> = Vec::new();
    map.push((Value::Text(String::from_str("title")), Value::Text(entry.title)));
    map.push((Value::Text(String::from_str("href")), Value::Text(entry.href)));
    map.push((Value::Text(String::from_str("created")), Value::Integer(entry.created)));
    map.push((Value::Text(String::from_str("updated")), Value::Integer(entry.updated)));
    let ghost m = map@;
    let ghost expected = entry_view(e)->Mapping_0;
    assert(value_view(m[0].0) == expected[0].0 && value_view(m[0].1) == expected[0].1);
    assert(value_view(m[1].0) == expected[1].0 && value_view(m[1].1) == expected[1].1);
    assert(value_view(m[2].0) == expected[2].0 && value_view(m[2].1) == expected[2].1);
    assert(value_view(m[3].0) == expected[3].0 && value_view(m[3].1) == expected[3].1);
    let value = Value::Mapping(map);
    assert(value_view(value)->Mapping_0 =~= expected);
    value
}

/// The catalog as a value: a list of its entries.
pub fn catalog_value(catalog: Vec<CatalogEntry>) -> (value: Value)
    ensures
        value_view(value) == ValueView::List(catalog@.map_values(|e: CatalogEntry| entry_view(e))),
{
    let ghost entries = catalog@;
    let mut catalog = catalog;
    let mut reversed: Vec<CatalogEntry> = Vec::new();
    while catalog.len() > 0
        invariant
            reversed@ + catalog@.reverse() == entries.reverse(),
        decreases catalog@.len(),
    {
        let ghost before = catalog@;
        let entry = catalog.pop().unwrap();
        proof {
            assert(before == catalog@.push(entry));
            assert(before.reverse() =~= seq![entry] + catalog@.reverse());
            assert(reversed@.push(entry) + catalog@.reverse() =~= reversed@ + before.reverse());
        }
        reversed.push(entry);
    }
    assert(catalog@.reverse() =~= Seq::<CatalogEntry>::empty());
    assert(reversed@ =~= entries.reverse());
    let n = reversed.len();
    let mut list: Vec<Value> = Vec::new();
    let mut i: usize = 0;
    while i < n
        invariant
            n == entries.len(),
            reversed@.len() == n - i,
            forall|k: int| 0 <= k < n - i ==> #[trigger] reversed@[k] == entries[n - 1 - k],
            list@.len() == i,
            forall|k: int| 0 <= k < i ==> value_view(#[trigger] list@[k]) == entry_view(entries[k]),
        decreases n - i,
    {
        let ghost before = reversed@;
        let entry = reversed.pop().unwrap();
        proof {
            assert(before[n - i - 1] == entry);
            assert forall|k: int| 0 <= k < n - i - 1 implies #[trigger] reversed@[k] == entries[n - 1 - k] by {
                assert(reversed@[k] == before[k]);
            }
        }
        list.push(entry_value(entry));
        i = i + 1;
    }
    let ghost items = list@;
    let value = Value::List(list);
    assert(value_view(value)->List_0 =~= entries.map_values(|e: CatalogEntry| entry_view(e)));
    value
}

/// How entries compare under each sort: by title without case (alphabetical), by creation
/// time, or by update time, the earlier first.
pub proof fn law_entry_order_keys(a: CatalogEntry, b: CatalogEntry)
    ensures
        a.created < b.created ==> entry_order(Sort::Created, a, b) < 0,
        a.created == b.created ==> entry_order(Sort::Created, a, b) == 0,
        a.created > b.created ==> entry_order(Sort::Created, a, b) > 0,
        a.updated < b.updated ==> entry_order(Sort::Updated, a, b) < 0,
        a.updated == b.updated ==> entry_order(Sort::Updated, a, b) == 0,
        a.updated > b.updated ==> entry_order(Sort::Updated, a, b) > 0,
        entry_order(Sort::Alpha, a, b) == lex_order(lower(a.title@), lower(b.title@)),
{
}

/// A sorted catalog lists its entries by the sort's key: titles without case in order for
/// alphabetical, creation times and update times not decreasing for the time sorts; and it
/// holds the same entries.
pub proof fn law_sorted_catalog_keys(sort: Sort, original: Seq<CatalogEntry>, sorted: Seq<CatalogEntry>)
    requires
        is_stable_sort_of(sort, original, sorted),
    ensures
        sorted.len() == original.len(),
        forall|k: int| 0 <= k < sorted.len() ==> original.contains(#[trigger] sorted[k]),
        sort == Sort::Created ==> forall|k: int, l: int| 0 <= k < l < sorted.len() ==> #[trigger] sorted[k].created <= #[trigger] sorted[l].created,
        sort == Sort::Updated ==> forall|k: int, l: int| 0 <= k < l < sorted.len() ==> #[trigger] sorted[k].updated <= #[trigger] sorted[l].updated,
        sort == Sort::Alpha ==> forall|k: int, l: int|
            0 <= k < l < sorted.len() ==> lex_order(lower(#[trigger] sorted[k].title@), lower(#[trigger] sorted[l].title@)) <= 0,
{
    let perm = choose|perm: Seq<int>| is_stable_permutation(sort, original, sorted, perm);
    assert forall|k: int| 0 <= k < sorted.len() implies original.contains(#[trigger] sorted[k]) by {
        assert(0 <= perm[k] < original.len());
        assert(sorted[k] == original[perm[k]]);
    }
    assert forall|k: int, l: int| 0 <= k < l < sorted.len() implies entry_order(sort, #[trigger] sorted[k], #[trigger] sorted[l]) <= 0 by {
        assert(entry_le(sort, sorted[k], sorted[l]));
    }
    if sort == Sort::Created {
        assert forall|k: int, l: int| 0 <= k < l < sorted.len() implies #[trigger] sorted[k].created <= #[trigger] sorted[l].created by {
            law_entry_order_keys(sorted[k], sorted[l]);
            assert(entry_order(sort, sorted[k], sorted[l]) <= 0);
        }
    }
    if sort == Sort::Updated {
        assert forall|k: int, l: int| 0 <= k < l < sorted.len() implies #[trigger] sorted[k].updated <= #[trigger] sorted[l].updated by {
            law_entry_order_keys(sorted[k], sorted[l]);
            assert(entry_order(sort, sorted[k], sorted[l]) <= 0);
        }
    }
}

} // verus!
