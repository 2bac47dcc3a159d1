//! Character-level string utilities shared by the path, URI and rendering code.
//!
//! Strings are handled as sequences of `char`s; every function here states its result
//! over the `Seq<char>` view of its arguments.
use vstd::prelude::*;

verus! {

// ----------------------------------------------------------------------------------------
// Specifications
// ----------------------------------------------------------------------------------------

/// `s` begins with `p`.
pub open spec fn starts_with(s: Seq<char>, p: Seq<char>) -> bool {
    p.len() <= s.len() && s.subrange(0, p.len() as int) == p
}

/// `s` ends with `p`.
pub open spec fn ends_with(s: Seq<char>, p: Seq<char>) -> bool {
    p.len() <= s.len() && s.subrange(s.len() - p.len(), s.len() as int) == p
}

/// `p` occurs in `s` at index `i`.
pub open spec fn occurs_at(s: Seq<char>, p: Seq<char>, i: int) -> bool {
    0 <= i && i + p.len() <= s.len() && s.subrange(i, i + p.len()) == p
}

/// Index of the first occurrence of `p` in `s` at or after `start`.
pub open spec fn find_from(s: Seq<char>, p: Seq<char>, start: nat) -> Option<int>
    decreases s.len() - start,
{
    if start + p.len() > s.len() {
        None
    } else if occurs_at(s, p, start as int) {
        Some(start as int)
    } else if start >= s.len() {
        None
    } else {
        find_from(s, p, start + 1)
    }
}

/// Index of the first occurrence of `p` in `s` (`str::find`).
pub open spec fn find(s: Seq<char>, p: Seq<char>) -> Option<int> {
    find_from(s, p, 0)
}

/// Index of the last occurrence of the character `c` in `s` (`str::rfind`).
pub open spec fn rfind_char(s: Seq<char>, c: char) -> Option<int>
    decreases s.len(),
{
    if s.len() == 0 {
        None
    } else if s.last() == c {
        Some(s.len() - 1)
    } else {
        rfind_char(s.drop_last(), c)
    }
}

/// Index of the first occurrence of the character `c` in `s` (`str::find`).
pub open spec fn find_char(s: Seq<char>, c: char) -> Option<int> {
    find(s, seq![c])
}

/// `s` without all trailing `c` characters (`str::trim_end_matches`).
pub open spec fn trim_end_char(s: Seq<char>, c: char) -> Seq<char>
    decreases s.len(),
{
    if s.len() > 0 && s.last() == c {
        trim_end_char(s.drop_last(), c)
    } else {
        s
    }
}

/// `s` without all leading `c` characters (`str::trim_start_matches`).
pub open spec fn trim_start_char(s: Seq<char>, c: char) -> Seq<char>
    decreases s.len(),
{
    if s.len() > 0 && s[0] == c {
        trim_start_char(s.drop_first(), c)
    } else {
        s
    }
}

/// Lexicographic comparison of character sequences: -1, 0 or 1.
///
/// This is the order of `str`: byte-wise order of UTF-8 is the code-point order of the
/// characters.
pub open spec fn lex_order(a: Seq<char>, b: Seq<char>) -> int
    decreases a.len(),
{
    if a.len() == 0 && b.len() == 0 {
        0
    } else if a.len() == 0 {
        -1
    } else if b.len() == 0 {
        1
    } else if (a[0] as u32) < (b[0] as u32) {
        -1
    } else if (a[0] as u32) > (b[0] as u32) {
        1
    } else {
        lex_order(a.drop_first(), b.drop_first())
    }
}

/// Whether every character is ASCII.
pub open spec fn all_ascii(s: Seq<char>) -> bool {
    forall|i: int| 0 <= i < s.len() ==> (s[i] as u32) < 128
}

/// Lowercase of a string, as `str::to_lowercase` computes it (Unicode case mapping).
pub uninterp spec fn lowercase(s: Seq<char>) -> Seq<char>;

/// ASCII lowercase of a character: 'A'..='Z' to 'a'..='z', every other character kept.
pub open spec fn ascii_lowercase_char(c: char) -> char {
    if 'A' <= c && c <= 'Z' {
        ((c as u32) + 32) as char
    } else {
        c
    }
}

/// ASCII lowercase of a string.
pub open spec fn ascii_lowercase(s: Seq<char>) -> Seq<char> {
    s.map_values(|c: char| ascii_lowercase_char(c))
}

/// Lowercase of a string: the ASCII mapping for ASCII strings, the Unicode mapping otherwise.
pub open spec fn lower(s: Seq<char>) -> Seq<char> {
    if all_ascii(s) {
        ascii_lowercase(s)
    } else {
        lowercase(s)
    }
}

// ----------------------------------------------------------------------------------------
// Lemmas
// ----------------------------------------------------------------------------------------

/// The result of `find_from` is an occurrence, and the first one at or after `start`.
pub proof fn lemma_find_from(s: Seq<char>, p: Seq<char>, start: nat)
    ensures
        match find_from(s, p, start) {
            Some(i) => start <= i && occurs_at(s, p, i) && forall|j: int|
                start <= j < i ==> !#[trigger] occurs_at(s, p, j),
            None => forall|j: int| start <= j ==> !#[trigger] occurs_at(s, p, j),
        },
    decreases s.len() - start,
{
    if start + p.len() > s.len() {
    } else if occurs_at(s, p, start as int) {
    } else if start >= s.len() {
    } else {
        lemma_find_from(s, p, start + 1);
    }
}

/// The result of `rfind_char` is the last index holding `c`.
pub proof fn lemma_rfind_char(s: Seq<char>, c: char)
    ensures
        match rfind_char(s, c) {
            Some(i) => 0 <= i < s.len() && s[i] == c && forall|j: int| i < j < s.len() ==> s[j] != c,
            None => forall|j: int| 0 <= j < s.len() ==> s[j] != c,
        },
    decreases s.len(),
{
    if s.len() == 0 {
    } else if s.last() == c {
    } else {
        lemma_rfind_char(s.drop_last(), c);
        let r = rfind_char(s.drop_last(), c);
        assert forall|j: int| 0 <= j < s.len() - 1 implies s.drop_last()[j] == s[j] by {}
    }
}

/// `trim_end_char` removes a suffix made only of `c`, and what is left does not end in `c`.
pub proof fn lemma_trim_end_char(s: Seq<char>, c: char)
    ensures
        trim_end_char(s, c).len() <= s.len(),
        trim_end_char(s, c) == s.subrange(0, trim_end_char(s, c).len() as int),
        forall|i: int| trim_end_char(s, c).len() <= i < s.len() ==> s[i] == c,
        trim_end_char(s, c).len() == 0 || trim_end_char(s, c).last() != c,
    decreases s.len(),
{
    if s.len() > 0 && s.last() == c {
        lemma_trim_end_char(s.drop_last(), c);
        let t = trim_end_char(s.drop_last(), c);
        assert(t == s.subrange(0, t.len() as int));
        assert forall|i: int| t.len() <= i < s.len() implies s[i] == c by {
            if i < s.len() - 1 {
                assert(s.drop_last()[i] == s[i]);
            }
        }
    } else {
        assert(s == s.subrange(0, s.len() as int));
    }
}

/// `trim_start_char` removes a prefix made only of `c`, and what is left does not begin with `c`.
pub proof fn lemma_trim_start_char(s: Seq<char>, c: char)
    ensures
        trim_start_char(s, c).len() <= s.len(),
        trim_start_char(s, c) == s.subrange(s.len() - trim_start_char(s, c).len(), s.len() as int),
        forall|i: int| 0 <= i < s.len() - trim_start_char(s, c).len() ==> s[i] == c,
        trim_start_char(s, c).len() == 0 || trim_start_char(s, c)[0] != c,
    decreases s.len(),
{
    if s.len() > 0 && s[0] == c {
        lemma_trim_start_char(s.drop_first(), c);
        let t = trim_start_char(s.drop_first(), c);
        assert(t == s.subrange(s.len() - t.len(), s.len() as int));
        assert forall|i: int| 0 <= i < s.len() - t.len() implies s[i] == c by {
            if i > 0 {
                assert(s.drop_first()[i - 1] == s[i]);
            }
        }
    } else {
        assert(s == s.subrange(0, s.len() as int));
    }
}

// ----------------------------------------------------------------------------------------
// Conversions (std)
// ----------------------------------------------------------------------------------------

/// The characters of a string slice: `str::chars` collected into a `Vec`.
#[verifier::external_body]
pub(crate) fn chars_of(s: &str) -> (v: Vec<char>)
    ensures
        v@ == s@,
{
    s.chars().collect()
}

/// A string made of the given characters: `String::from_iter` over the characters.
#[verifier::external_body]
pub(crate) fn string_of(v: &[char]) -> (s: String)
    ensures
        s@ == v@,
{
    v.iter().collect()
}

/// `str::to_lowercase`: the Unicode lowercase, which on ASCII characters maps 'A'..='Z' to
/// 'a'..='z' and keeps every other character.
#[verifier::external_body]
fn std_to_lowercase(s: &str) -> (r: String)
    ensures
        r@ == lowercase(s@),
        all_ascii(s@) ==> r@ == ascii_lowercase(s@),
{
    s.to_lowercase()
}

/// The `Debug` representation of a string: quoted, with special characters escaped.
pub uninterp spec fn debug_text(text: Seq<char>) -> Seq<char>;

/// `Debug` formatting of a string (`format!("{:?}", text)`). The contract names the result
/// and leaves std's quoting and escaping rules unstated.
#[verifier::external_body]
pub(crate) fn debug_quote(text: &str) -> (quoted: String)
    ensures
        quoted@ == debug_text(text@),
{
    format!("{:?}", text)
}

/// Lowercase of a string (`str::to_lowercase`).
pub fn to_lowercase(s: &str) -> (r: String)
    ensures
        r@ == lower(s@),
{
    std_to_lowercase(s)
}

// ----------------------------------------------------------------------------------------
// Executable functions
// ----------------------------------------------------------------------------------------

/// Characters `v[from..to]`.
pub fn slice_chars(v: &[char], from: usize, to: usize) -> (r: Vec<char>)
    requires
        from <= to <= v@.len(),
    ensures
        r@ == v@.subrange(from as int, to as int),
{
    let mut r: Vec<char> = Vec::new();
    let mut i = from;
    while i < to
        invariant
            from <= i <= to <= v@.len(),
            r@ == v@.subrange(from as int, i as int),
        decreases to - i,
    {
        r.push(v[i]);
        i = i + 1;
        assert(r@ == v@.subrange(from as int, i as int));
    }
    r
}

/// Whether `v[at..]` begins with `p`.
pub fn occurs_at_exec(v: &[char], p: &[char], at: usize) -> (b: bool)
    requires
        at <= v@.len(),
    ensures
        b == occurs_at(v@, p@, at as int),
{
    if p.len() > v.len() - at {
        return false;
    }
    let mut j: usize = 0;
    while j < p.len()
        invariant
            at + p@.len() <= v@.len(),
            j <= p@.len(),
            forall|k: int| 0 <= k < j ==> v@[at + k] == p@[k],
        decreases p@.len() - j,
    {
        assert(at + j < v.len());
        if v[at + j] != p[j] {
            assert(v@.subrange(at as int, at + p@.len())[j as int] != p@[j as int]);
            return false;
        }
        j = j + 1;
    }
    assert(v@.subrange(at as int, at + p@.len()) =~= p@);
    true
}

/// `str::starts_with`.
pub fn starts_with_exec(v: &[char], p: &[char]) -> (b: bool)
    ensures
        b == starts_with(v@, p@),
{
    occurs_at_exec(v, p, 0)
}

/// `str::ends_with`.
pub fn ends_with_exec(v: &[char], p: &[char]) -> (b: bool)
    ensures
        b == ends_with(v@, p@),
{
    if p.len() > v.len() {
        return false;
    }
    occurs_at_exec(v, p, v.len() - p.len())
}

/// `str::find` with a string pattern.
pub fn find_exec(v: &[char], p: &[char]) -> (r: Option<usize>)
    ensures
        r matches Some(i) ==> find(v@, p@) == Some(i as int),
        r is None ==> find(v@, p@) is None,
{
    let mut i: usize = 0;
    while i <= v.len()
        invariant
            i <= v@.len() + 1,
            find(v@, p@) == find_from(v@, p@, i as nat),
            i > v@.len() ==> find_from(v@, p@, i as nat) is None,
        decreases v@.len() + 1 - i,
    {
        if p.len() > v.len() - i {
            return None;
        }
        if occurs_at_exec(v, p, i) {
            return Some(i);
        }
        if i == v.len() {
            return None;
        }
        i = i + 1;
    }
    None
}

/// `str::find` with a character pattern.
pub fn find_char_exec(v: &[char], c: char) -> (r: Option<usize>)
    ensures
        r matches Some(i) ==> find_char(v@, c) == Some(i as int),
        r is None ==> find_char(v@, c) is None,
{
    let p = [c];
    assert(p@ =~= seq![c]);
    find_exec(v, &p)
}

/// `str::rfind` with a character pattern.
pub fn rfind_char_exec(v: &[char], c: char) -> (r: Option<usize>)
    ensures
        r matches Some(i) ==> rfind_char(v@, c) == Some(i as int),
        r is None ==> rfind_char(v@, c) is None,
{
    let mut n = v.len();
    assert(v@.subrange(0, n as int) =~= v@);
    while n > 0
        invariant
            n <= v@.len(),
            rfind_char(v@, c) == rfind_char(v@.subrange(0, n as int), c),
        decreases n,
    {
        let ghost s = v@.subrange(0, n as int);
        assert(s.drop_last() =~= v@.subrange(0, n - 1));
        if v[n - 1] == c {
            return Some(n - 1);
        }
        n = n - 1;
    }
    None
}

/// Length of `v` once all trailing `c` characters are removed.
pub fn trim_end_len(v: &[char], c: char) -> (n: usize)
    ensures
        n <= v@.len(),
        n == trim_end_char(v@, c).len(),
        trim_end_char(v@, c) == v@.subrange(0, n as int),
{
    proof {
        lemma_trim_end_char(v@, c);
    }
    let mut n = v.len();
    assert(v@.subrange(0, n as int) =~= v@);
    while n > 0 && v[n - 1] == c
        invariant
            n <= v@.len(),
            trim_end_char(v@, c) == trim_end_char(v@.subrange(0, n as int), c),
        decreases n,
    {
        assert(v@.subrange(0, n as int).drop_last() =~= v@.subrange(0, n - 1));
        n = n - 1;
    }
    proof {
        let s = v@.subrange(0, n as int);
        assert(trim_end_char(s, c) == s);
    }
    n
}

/// Number of leading `c` characters in `v`.
pub fn trim_start_count(v: &[char], c: char) -> (n: usize)
    ensures
        n <= v@.len(),
        trim_start_char(v@, c) == v@.subrange(n as int, v@.len() as int),
{
    let mut n: usize = 0;
    assert(v@.subrange(0, v@.len() as int) =~= v@);
    while n < v.len() && v[n] == c
        invariant
            n <= v@.len(),
            trim_start_char(v@, c) == trim_start_char(v@.subrange(n as int, v@.len() as int), c),
        decreases v@.len() - n,
    {
        assert(v@.subrange(n as int, v@.len() as int).drop_first() =~= v@.subrange(n + 1, v@.len() as int));
        n = n + 1;
    }
    proof {
        let s = v@.subrange(n as int, v@.len() as int);
        assert(trim_start_char(s, c) == s);
    }
    n
}

/// `str::trim_end_matches` with a character pattern.
pub fn trim_end_matches(s: &str, c: char) -> (r: String)
    ensures
        r@ == trim_end_char(s@, c),
{
    let v = chars_of(s);
    let n = trim_end_len(&v, c);
    let t = slice_chars(&v, 0, n);
    string_of(&t)
}

/// `str::trim_start_matches` with a character pattern.
pub fn trim_start_matches(s: &str, c: char) -> (r: String)
    ensures
        r@ == trim_start_char(s@, c),
{
    let v = chars_of(s);
    let n = trim_start_count(&v, c);
    let t = slice_chars(&v, n, v.len());
    string_of(&t)
}

/// Whether every character of `s` is ASCII.
pub fn is_ascii_exec(s: &str) -> (b: bool)
    ensures
        b == all_ascii(s@),
{
    let v = chars_of(s);
    let mut i: usize = 0;
    while i < v.len()
        invariant
            v@ == s@,
            i <= v@.len(),
            forall|k: int| 0 <= k < i ==> (v@[k] as u32) < 128,
        decreases v@.len() - i,
    {
        if (v[i] as u32) >= 128 {
            return false;
        }
        i = i + 1;
    }
    true
}

/// Equality of two strings by their characters.
pub fn str_eq(a: &str, b: &str) -> (r: bool)
    ensures
        r == (a@ == b@),
{
    let va = chars_of(a);
    let vb = chars_of(b);
    if va.len() != vb.len() {
        return false;
    }
    let mut i: usize = 0;
    while i < va.len()
        invariant
            va@ == a@,
            vb@ == b@,
            va@.len() == vb@.len(),
            i <= va@.len(),
            forall|k: int| 0 <= k < i ==> va@[k] == vb@[k],
        decreases va@.len() - i,
    {
        if va[i] != vb[i] {
            return false;
        }
        i = i + 1;
    }
    assert(va@ =~= vb@);
    true
}

/// Lexicographic comparison of characters: -1, 0 or 1.
pub fn lex_order_exec(a: &[char], b: &[char]) -> (r: i8)
    ensures
        r as int == lex_order(a@, b@),
{
    let mut i: usize = 0;
    assert(a@.subrange(0, a@.len() as int) =~= a@);
    assert(b@.subrange(0, b@.len() as int) =~= b@);
    while i < a.len() && i < b.len()
        invariant
            i <= a@.len(),
            i <= b@.len(),
            lex_order(a@, b@) == lex_order(a@.subrange(i as int, a@.len() as int), b@.subrange(i as int, b@.len() as int)),
        decreases a@.len() - i,
    {
        let ghost sa = a@.subrange(i as int, a@.len() as int);
        let ghost sb = b@.subrange(i as int, b@.len() as int);
        assert(sa[0] == a@[i as int]);
        assert(sb[0] == b@[i as int]);
        if (a[i] as u32) < (b[i] as u32) {
            return -1;
        }
        if (a[i] as u32) > (b[i] as u32) {
            return 1;
        }
        assert(sa.drop_first() =~= a@.subrange(i + 1, a@.len() as int));
        assert(sb.drop_first() =~= b@.subrange(i + 1, b@.len() as int));
        i = i + 1;
    }
    if i < a.len() {
        1
    } else if i < b.len() {
        -1
    } else {
        0
    }
}

/// A copy of a list of strings.
pub fn copy_strings(v: &Vec<String>) -> (copy: Vec<String>)
    ensures
        copy@.len() == v@.len(),
        forall|i: int| 0 <= i < v@.len() ==> #[trigger] copy@[i]@ == v@[i]@,
{
    let mut copy: Vec<String> = Vec::new();
    let mut i: usize = 0;
    while i < v.len()
        invariant
            i <= v@.len(),
            copy@.len() == i,
            forall|j: int| 0 <= j < i ==> #[trigger] copy@[j]@ == v@[j]@,
        decreases v@.len() - i,
    {
        copy.push(String::from_str(v[i].as_str()));
        i = i + 1;
    }
    copy
}

} // verus!
