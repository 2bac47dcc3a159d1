//! Escaped delimiters (the `kutil` crate's `Escape` trait).
use vstd::prelude::*;

use crate::text::{chars_of, starts_with};

verus! {

/// The number of bytes of a character in UTF-8.
pub open spec fn utf8_len(c: char) -> nat {
    if (c as u32) < 0x80 {
        1
    } else if (c as u32) < 0x800 {
        2
    } else if (c as u32) < 0x10000 {
        3
    } else {
        4
    }
}

/// The number of bytes of a string in UTF-8.
pub open spec fn utf8_size(s: Seq<char>) -> nat
    decreases s.len(),
{
    if s.len() == 0 {
        0
    } else {
        utf8_size(s.drop_last()) + utf8_len(s.last())
    }
}

/// The scan of `kutil::std::string::Escape::find_ignore_escaped`, from character `i` with
/// `index` characters of the pattern matched so far: the index of the character that
/// completes a match that no backslash escapes. The characters of a match need not be
/// adjacent: a character that is not the next one of the pattern leaves the count as it is
/// (and marks what follows as escaped if it is a backslash); an escaped match starts the count
/// over.
pub open spec fn escaped_match_end(text: Seq<char>, pattern: Seq<char>, i: nat, index: nat, escaped: bool) -> Option<nat>
    decreases text.len() - i,
{
    if i >= text.len() || index >= pattern.len() {
        None
    } else if text[i as int] == pattern[index as int] {
        if index + 1 == pattern.len() {
            if escaped {
                escaped_match_end(text, pattern, i + 1, 0, false)
            } else {
                Some(i)
            }
        } else {
            escaped_match_end(text, pattern, i + 1, index + 1, escaped)
        }
    } else if text[i as int] == '\\' {
        escaped_match_end(text, pattern, i + 1, index, true)
    } else {
        escaped_match_end(text, pattern, i + 1, index, false)
    }
}

/// The byte index at which the split is made when the match ends at character `end`: the
/// byte index of that character, less the pattern's length in bytes, plus one.
pub open spec fn escaped_split_byte(text: Seq<char>, pattern: Seq<char>, end: nat) -> int {
    utf8_size(text.take(end as int)) - utf8_size(pattern) + 1
}

/// Whether a byte index falls between two characters of the text (or at either end).
pub open spec fn is_char_boundary(text: Seq<char>, byte: int) -> bool {
    exists|k: int| 0 <= k <= text.len() && #[trigger] utf8_size(text.take(k)) == byte
}

/// Whether the split runs without panicking: the pattern is not empty (unless the text is),
/// and a match found ends far enough into the text for the byte index to be computed, with
/// both slices beginning and ending between characters.
pub open spec fn escaped_split_defined(text: Seq<char>, pattern: Seq<char>) -> bool {
    if pattern.len() == 0 {
        text.len() == 0
    } else {
        match escaped_match_end(text, pattern, 0, 0, false) {
            None => true,
            Some(end) => {
                &&& utf8_size(text.take(end as int)) >= utf8_size(pattern)
                &&& is_char_boundary(text, escaped_split_byte(text, pattern, end))
                &&& is_char_boundary(text, escaped_split_byte(text, pattern, end) + utf8_size(pattern))
            },
        }
    }
}

/// The split that `kutil::std::string::Escape::split_once_ignore_escaped` makes of `text`
/// around the first match of `pattern` that is not escaped: what precedes the split byte, and
/// what follows the pattern's length in bytes after it.
pub open spec fn escaped_split(text: Seq<char>, pattern: Seq<char>) -> Option<(Seq<char>, Seq<char>)> {
    if pattern.len() == 0 {
        None
    } else {
        match escaped_match_end(text, pattern, 0, 0, false) {
            None => None,
            Some(end) => {
                let byte = escaped_split_byte(text, pattern, end);
                let before = choose|k: int| 0 <= k <= text.len() && #[trigger] utf8_size(text.take(k)) == byte;
                let after = choose|k: int|
                    0 <= k <= text.len() && #[trigger] utf8_size(text.take(k)) == byte + utf8_size(pattern);
                Some((text.take(before), text.skip(after)))
            },
        }
    }
}

/// The number of bytes of a character in UTF-8.
fn utf8_len_exec(c: char) -> (n: u128)
    ensures
        n == utf8_len(c),
{
    let code = c as u32;
    if code < 0x80 {
        1
    } else if code < 0x800 {
        2
    } else if code < 0x10000 {
        3
    } else {
        4
    }
}

/// The UTF-8 sizes of the prefixes of a string, from the empty one to the whole.
fn prefix_sizes(t: &Vec<char>) -> (sizes: Vec<u128>)
    ensures
        sizes@.len() == t@.len() + 1,
        forall|k: int| 0 <= k <= t@.len() ==> sizes@[k] == utf8_size(t@.take(k)) && sizes@[k] <= 4 * k,
{
    let mut sizes: Vec<u128> = Vec::new();
    let mut acc: u128 = 0;
    assert(t@.take(0) =~= Seq::<char>::empty());
    sizes.push(0);
    let mut k: usize = 0;
    while k < t.len()
        invariant
            sizes@.len() == k + 1,
            k <= t@.len(),
            acc == utf8_size(t@.take(k as int)),
            acc <= 4 * k,
            forall|j: int| 0 <= j <= k ==> sizes@[j] == utf8_size(t@.take(j)) && sizes@[j] <= 4 * j,
        decreases t@.len() - k,
    {
        assert(t@.take(k as int + 1).drop_last() =~= t@.take(k as int));
        acc = acc + utf8_len_exec(t[k]);
        k = k + 1;
        sizes.push(acc);
    }
    sizes
}

/// Whether one of the sizes is the given one.
fn has_size(sizes: &Vec<u128>, byte: u128) -> (found: bool)
    ensures
        found == exists|k: int| 0 <= k < sizes@.len() && sizes@[k] == byte,
{
    let mut k: usize = 0;
    while k < sizes.len()
        invariant
            k <= sizes@.len(),
            forall|j: int| 0 <= j < k ==> sizes@[j] != byte,
        decreases sizes@.len() - k,
    {
        if sizes[k] == byte {
            return true;
        }
        k = k + 1;
    }
    false
}

/// Whether `split_once_ignore_escaped` runs on the text and pattern without panicking.
pub fn escaped_split_defined_exec(text: &str, pattern: &str) -> (defined: bool)
    ensures
        defined == escaped_split_defined(text@, pattern@),
{
    let t = chars_of(text);
    let p = chars_of(pattern);
    if p.len() == 0 {
        return t.len() == 0;
    }
    let mut i: usize = 0;
    let mut index: usize = 0;
    let mut escaped = false;
    let mut end: Option<usize> = None;
    while i < t.len() && end.is_none()
        invariant
            t@ == text@,
            p@ == pattern@,
            p@.len() > 0,
            i <= t@.len(),
            index < p@.len(),
            end is None ==> escaped_match_end(t@, p@, 0, 0, false) == escaped_match_end(t@, p@, i as nat, index as nat, escaped),
            end matches Some(e) ==> e < t@.len() && escaped_match_end(t@, p@, 0, 0, false) == Some(e as nat),
        decreases t@.len() - i,
    {
        let c = t[i];
        if c == p[index] {
            if index == p.len() - 1 {
                if escaped {
                    index = 0;
                    escaped = false;
                } else {
                    end = Some(i);
                }
            } else {
                index = index + 1;
            }
        } else if c == '\\' {
            escaped = true;
        } else {
            escaped = false;
        }
        i = i + 1;
    }
    match end {
        None => true,
        Some(e) => {
            let text_sizes = prefix_sizes(&t);
            let pattern_sizes = prefix_sizes(&p);
            let pattern_size = pattern_sizes[p.len()];
            assert(p@.take(p@.len() as int) =~= p@);
            let end_size = text_sizes[e];
            if end_size < pattern_size {
                return false;
            }
            let byte = end_size - pattern_size + 1;
            let before = has_size(&text_sizes, byte);
            let after = has_size(&text_sizes, byte + pattern_size);
            proof {
                let b = escaped_split_byte(t@, p@, e as nat);
                assert(b == byte);
                if before {
                    let k = choose|k: int| 0 <= k < text_sizes@.len() && text_sizes@[k] == byte;
                    assert(utf8_size(t@.take(k)) == b);
                }
                if is_char_boundary(t@, b) {
                    let k = choose|k: int| 0 <= k <= t@.len() && #[trigger] utf8_size(t@.take(k)) == b;
                    assert(text_sizes@[k] == byte);
                }
                if after {
                    let k = choose|k: int| 0 <= k < text_sizes@.len() && text_sizes@[k] == byte + pattern_size;
                    assert(utf8_size(t@.take(k)) == b + utf8_size(p@));
                }
                if is_char_boundary(t@, b + utf8_size(p@)) {
                    let k = choose|k: int| 0 <= k <= t@.len() && #[trigger] utf8_size(t@.take(k)) == b + utf8_size(p@);
                    assert(text_sizes@[k] == byte + pattern_size);
                }
            }
            before && after
        },
    }
}

/// `text` with every non-overlapping occurrence of `from`, scanning from the left, replaced by
/// `to` (`str::replace`).
pub open spec fn replace_all(text: Seq<char>, from: Seq<char>, to: Seq<char>) -> Seq<char>
    recommends
        from.len() > 0,
    decreases text.len(),
{
    if text.len() == 0 || from.len() == 0 {
        text
    } else if starts_with(text, from) {
        to + replace_all(text.skip(from.len() as int), from, to)
    } else {
        seq![text[0]] + replace_all(text.drop_first(), from, to)
    }
}

/// `kutil::std::string::Escape::split_once_ignore_escaped`.
///
/// It panics on a non-empty text with an empty pattern, when the byte index of a match's
/// last character is less than the pattern's length in bytes (the subtraction overflows), and
/// when a slice would begin or end inside a character; `requires` leaves those inputs out.
#[verifier::external_body]
pub(crate) fn split_once_ignore_escaped(text: &str, pattern: &str) -> (split: Option<(String, String)>)
    requires
        escaped_split_defined(text@, pattern@),
    ensures
        split is Some <==> escaped_split(text@, pattern@) is Some,
        split matches Some((before, after)) ==> escaped_split(text@, pattern@) == Some(
            (before@, after@),
        ),
{
    ::kutil::std::string::Escape::split_once_ignore_escaped(text, pattern).map(|(before, after)| (before.to_string(), after.to_string()))
}

/// `kutil::std::string::Escape::unescape`: every backslash-escaped `pattern` replaced by the
/// pattern itself.
#[verifier::external_body]
pub(crate) fn unescape(text: &str, pattern: &str) -> (unescaped: String)
    ensures
        unescaped@ == replace_all(text@, seq!['\\'] + pattern@, pattern@),
{
    ::kutil::std::string::Escape::unescape(text, pattern)
}

} // verus!
