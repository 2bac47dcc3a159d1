//! URI path utilities.
use vstd::prelude::*;

use crate::text::{
    chars_of, lemma_rfind_char, rfind_char, rfind_char_exec, slice_chars, starts_with,
    starts_with_exec, string_of, trim_end_char, trim_end_matches,
};
use super::constants::{HIDDEN_PATH_PREFIX, PATH_SEPARATOR, PATH_SEPARATOR_STRING};

verus! {

/// Segments of `s` split at every `c`, as `str::split` yields them.
pub open spec fn split_char(s: Seq<char>, c: char) -> Seq<Seq<char>>
    decreases s.len(),
{
    if s.len() == 0 {
        seq![Seq::<char>::empty()]
    } else {
        let r = split_char(s.drop_last(), c);
        if s.last() == c {
            r.push(Seq::<char>::empty())
        } else {
            r.update(r.len() - 1, r.last().push(s.last()))
        }
    }
}

/// `split_char` always yields at least one segment.
pub proof fn lemma_split_char_len(s: Seq<char>, c: char)
    ensures
        split_char(s, c).len() >= 1,
    decreases s.len(),
{
    if s.len() > 0 {
        lemma_split_char_len(s.drop_last(), c);
    }
}

/// The URI path segments of `uri_path`.
pub open spec fn spec_uri_path_segments(uri_path: Seq<char>) -> Seq<Seq<char>> {
    split_char(uri_path, PATH_SEPARATOR)
}

/// Whether some segment of `uri_path` begins with the hidden prefix.
pub open spec fn spec_has_hidden_segment(uri_path: Seq<char>) -> bool {
    exists|i: int|
        0 <= i < spec_uri_path_segments(uri_path).len() && starts_with(
            #[trigger] spec_uri_path_segments(uri_path)[i],
            seq![HIDDEN_PATH_PREFIX],
        )
}

/// The last segment of `uri_path`.
pub open spec fn spec_uri_path_last_segment(uri_path: Seq<char>) -> Seq<char> {
    match rfind_char(uri_path, PATH_SEPARATOR) {
        Some(last_slash) => uri_path.subrange(last_slash + 1, uri_path.len() as int),
        None => uri_path,
    }
}

/// `uri_path_1` and `uri_path_2` joined by exactly one separator (trailing separators of the
/// first are dropped).
pub open spec fn spec_uri_path_join(uri_path_1: Seq<char>, uri_path_2: Seq<char>) -> Seq<char> {
    trim_end_char(uri_path_1, PATH_SEPARATOR) + seq![PATH_SEPARATOR] + uri_path_2
}

/// Whether `uri_path_parent` can cut `uri_path` (the cut at its first character must fall on a
/// character boundary, so that character must be ASCII).
pub open spec fn uri_path_parent_defined(uri_path: Seq<char>) -> bool {
    rfind_char(uri_path, PATH_SEPARATOR) is Some || (uri_path.len() > 0 && (uri_path[0] as u32)
        < 128)
}

/// `uri_path` up one segment: up to its last separator, but never shorter than its first
/// character.
pub open spec fn spec_uri_path_parent(uri_path: Seq<char>) -> Seq<char> {
    match rfind_char(uri_path, PATH_SEPARATOR) {
        Some(last_slash) => if last_slash == 0 {
            uri_path.subrange(0, 1)
        } else {
            uri_path.subrange(0, last_slash)
        },
        None => uri_path.subrange(0, 1),
    }
}

/// Joining a segment (without separators) to a URI path and then taking the last segment
/// gives the segment back; going up one segment gives the base without its trailing
/// separators ("/" when nothing else is left).
pub proof fn law_join_then_split(base: Seq<char>, segment: Seq<char>)
    requires
        forall|i: int| 0 <= i < segment.len() ==> segment[i] != PATH_SEPARATOR,
    ensures
        spec_uri_path_last_segment(spec_uri_path_join(base, segment)) == segment,
        spec_uri_path_parent(spec_uri_path_join(base, segment)) == if trim_end_char(base, PATH_SEPARATOR).len() == 0 {
            seq![PATH_SEPARATOR]
        } else {
            trim_end_char(base, PATH_SEPARATOR)
        },
{
    let trimmed = trim_end_char(base, PATH_SEPARATOR);
    let joined = spec_uri_path_join(base, segment);
    let n = trimmed.len() as int;
    assert(joined[n] == PATH_SEPARATOR);
    lemma_rfind_char(joined, PATH_SEPARATOR);
    let i = rfind_char(joined, PATH_SEPARATOR)->0;
    if i > n {
        assert(joined[i] == segment[i - n - 1]);
    }
    assert(i == n);
    assert(joined.subrange(n + 1, joined.len() as int) =~= segment);
    assert(joined.subrange(0, n) =~= trimmed);
    if n == 0 {
        assert(joined.subrange(0, 1) =~= seq![PATH_SEPARATOR]);
    }
}

/// Segments joined with `c` between each two.
pub open spec fn join_char(parts: Seq<Seq<char>>, c: char) -> Seq<char>
    decreases parts.len(),
{
    if parts.len() == 0 {
        Seq::empty()
    } else if parts.len() == 1 {
        parts[0]
    } else {
        join_char(parts.drop_last(), c) + seq![c] + parts.last()
    }
}

/// How many times `c` occurs in `s`.
pub open spec fn count_char(s: Seq<char>, c: char) -> nat
    decreases s.len(),
{
    if s.len() == 0 {
        0
    } else {
        count_char(s.drop_last(), c) + if s.last() == c { 1nat } else { 0nat }
    }
}

/// Splitting at a character and joining the segments with it gives the text back; there is
/// one segment more than occurrences of the character, and no segment holds it.
pub proof fn law_split_then_join(s: Seq<char>, c: char)
    ensures
        join_char(split_char(s, c), c) == s,
        split_char(s, c).len() == count_char(s, c) + 1,
        forall|i: int, j: int| 0 <= i < split_char(s, c).len() && 0 <= j < split_char(s, c)[i].len() ==> #[trigger] split_char(s, c)[i][j] != c,
    decreases s.len(),
{
    if s.len() > 0 {
        let shorter = s.drop_last();
        law_split_then_join(shorter, c);
        let r = split_char(shorter, c);
        lemma_split_char_len(shorter, c);
        let result = split_char(s, c);
        if s.last() == c {
            assert(result.drop_last() =~= r);
            assert(shorter.push(c) =~= s);
            assert forall|i: int, j: int| 0 <= i < result.len() && 0 <= j < result[i].len() implies #[trigger] result[i][j] != c by {
                if i < r.len() {
                    assert(result[i] == r[i]);
                }
            }
        } else {
            let extended = r.last().push(s.last());
            if r.len() == 1 {
                assert(result =~= seq![extended]);
            } else {
                assert(result.drop_last() =~= r.drop_last());
                assert(result.last() == extended);
            }
            assert(shorter.push(s.last()) =~= s);
            assert(join_char(result, c) =~= join_char(r, c).push(s.last()));
            assert forall|i: int, j: int| 0 <= i < result.len() && 0 <= j < result[i].len() implies #[trigger] result[i][j] != c by {
                if i < r.len() - 1 {
                    assert(result[i] == r[i]);
                } else if j < r.last().len() {
                    assert(result[i][j] == r[r.len() - 1][j]);
                }
            }
        }
    }
}

/// The segments of a URI path joined with "/" give the path back; there is one more segment
/// than there are "/", and no segment holds one.
pub proof fn law_segments_rejoin(uri_path: Seq<char>)
    ensures
        join_char(spec_uri_path_segments(uri_path), PATH_SEPARATOR) == uri_path,
        spec_uri_path_segments(uri_path).len() == count_char(uri_path, PATH_SEPARATOR) + 1,
        forall|i: int, j: int|
            0 <= i < spec_uri_path_segments(uri_path).len() && 0 <= j < spec_uri_path_segments(uri_path)[i].len()
                ==> #[trigger] spec_uri_path_segments(uri_path)[i][j] != PATH_SEPARATOR,
{
    law_split_then_join(uri_path, PATH_SEPARATOR);
}

/// A character that begins a segment (it comes first, or right after the separator, and is
/// not the separator) begins one of the segments that splitting yields.
pub proof fn lemma_split_char_segment_start(s: Seq<char>, c: char, k: int)
    requires
        0 <= k < s.len(),
        k == 0 || s[k - 1] == c,
        s[k] != c,
    ensures
        exists|i: int|
            0 <= i < split_char(s, c).len() && (#[trigger] split_char(s, c)[i]).len() > 0 && split_char(s, c)[i][0] == s[k],
    decreases s.len(),
{
    let shorter = s.drop_last();
    let r = split_char(shorter, c);
    lemma_split_char_len(shorter, c);
    let result = split_char(s, c);
    if k < s.len() - 1 {
        lemma_split_char_segment_start(shorter, c, k);
        let i = choose|i: int| 0 <= i < r.len() && (#[trigger] r[i]).len() > 0 && r[i][0] == shorter[k];
        if s.last() == c {
            assert(result[i] == r[i]);
        } else if i < r.len() - 1 {
            assert(result[i] == r[i]);
        } else {
            assert(result[i] == r.last().push(s.last()));
            assert(result[i][0] == r[i][0]);
        }
        assert(0 <= i < result.len() && result[i].len() > 0 && result[i][0] == s[k]);
    } else {
        if k == 0 {
            assert(shorter.len() == 0);
            assert(r == seq![Seq::<char>::empty()]);
        } else {
            let before = shorter.drop_last();
            assert(shorter.last() == c);
            assert(r == split_char(before, c).push(Seq::<char>::empty()));
            assert(r.last() == Seq::<char>::empty());
        }
        let i = r.len() - 1;
        assert(result[i] == r.last().push(s.last()));
        assert(result[i][0] == s[k]);
        assert(0 <= i < result.len() && result[i].len() > 0 && result[i][0] == s[k]);
    }
}

/// A URI path in which a "." comes first or right after a "/" has a hidden segment.
pub proof fn law_dot_after_separator_is_hidden(uri_path: Seq<char>, k: int)
    requires
        0 <= k < uri_path.len(),
        k == 0 || uri_path[k - 1] == '/',
        uri_path[k] == '.',
    ensures
        spec_has_hidden_segment(uri_path),
{
    lemma_split_char_segment_start(uri_path, PATH_SEPARATOR, k);
    let segments = spec_uri_path_segments(uri_path);
    let i = choose|i: int| 0 <= i < segments.len() && (#[trigger] segments[i]).len() > 0 && segments[i][0] == uri_path[k];
    assert(segments[i].subrange(0, 1) =~= seq![HIDDEN_PATH_PREFIX]);
    assert(starts_with(segments[i], seq![HIDDEN_PATH_PREFIX]));
}

/// URI path segments.
pub fn uri_path_segments(uri_path: &str) -> (segments: Vec<String>)
    ensures
        segments@.map_values(|segment: String| segment@) == spec_uri_path_segments(uri_path@),
{
    let v = chars_of(uri_path);
    let mut segments: Vec<String> = Vec::new();
    let mut current: Vec<char> = Vec::new();
    let mut i: usize = 0;
    assert(v@.subrange(0, 0) =~= Seq::<char>::empty());
    assert(segments@.map_values(|segment: String| segment@).push(current@) =~= seq![
        Seq::<char>::empty(),
    ]);
    while i < v.len()
        invariant
            v@ == uri_path@,
            i <= v@.len(),
            segments@.map_values(|segment: String| segment@).push(current@) == split_char(
                v@.subrange(0, i as int),
                PATH_SEPARATOR,
            ),
        decreases v@.len() - i,
    {
        let ghost prefix = v@.subrange(0, i + 1);
        assert(prefix.drop_last() =~= v@.subrange(0, i as int));
        assert(prefix.last() == v@[i as int]);
        let ghost before = segments@.map_values(|segment: String| segment@);
        if v[i] == PATH_SEPARATOR {
            let segment = string_of(&current);
            segments.push(segment);
            current = Vec::new();
            assert(segments@.map_values(|segment: String| segment@) =~= before.push(
                segment@,
            ));
        } else {
            let c = v[i];
            current.push(c);
            assert(segments@.map_values(|segment: String| segment@) =~= before);
        }
        i = i + 1;
        assert(segments@.map_values(|segment: String| segment@).push(current@) =~= split_char(
            v@.subrange(0, i as int),
            PATH_SEPARATOR,
        ));
    }
    let last = string_of(&current);
    let ghost before = segments@.map_values(|segment: String| segment@);
    segments.push(last);
    assert(v@.subrange(0, v@.len() as int) =~= v@);
    assert(segments@.map_values(|segment: String| segment@) =~= before.push(last@));
    segments
}

/// The last segment in the URI path.
pub fn uri_path_last_segment(uri_path: &str) -> (segment: String)
    ensures
        segment@ == spec_uri_path_last_segment(uri_path@),
{
    let v = chars_of(uri_path);
    match rfind_char_exec(&v, PATH_SEPARATOR) {
        Some(last_slash) => {
            proof {
                lemma_rfind_char(v@, PATH_SEPARATOR);
            }
            let rest = slice_chars(&v, last_slash + 1, v.len());
            string_of(&rest)
        },
        None => string_of(&v),
    }
}

/// Whether the URI path has any segment that begins with ".".
pub fn uri_path_has_hidden_segment(uri_path: &str) -> (hidden: bool)
    ensures
        hidden == spec_has_hidden_segment(uri_path@),
{
    let segments = uri_path_segments(uri_path);
    let ghost views = segments@.map_values(|segment: String| segment@);
    let prefix = [HIDDEN_PATH_PREFIX];
    assert(prefix@ =~= seq![HIDDEN_PATH_PREFIX]);
    let mut i: usize = 0;
    while i < segments.len()
        invariant
            views == segments@.map_values(|segment: String| segment@),
            views == spec_uri_path_segments(uri_path@),
            prefix@ == seq![HIDDEN_PATH_PREFIX],
            i <= segments@.len(),
            forall|k: int| 0 <= k < i ==> !starts_with(views[k], seq![HIDDEN_PATH_PREFIX]),
        decreases segments@.len() - i,
    {
        let segment = chars_of(segments[i].as_str());
        assert(views[i as int] == segments@[i as int]@);
        if starts_with_exec(&segment, &prefix) {
            assert(starts_with(spec_uri_path_segments(uri_path@)[i as int], seq![HIDDEN_PATH_PREFIX]));
            return true;
        }
        i = i + 1;
    }
    assert forall|k: int|
        0 <= k < spec_uri_path_segments(uri_path@).len() implies !starts_with(
        #[trigger] spec_uri_path_segments(uri_path@)[k],
        seq![HIDDEN_PATH_PREFIX],
    ) by {}
    false
}

/// Join URI paths.
pub fn uri_path_join(uri_path_1: &str, uri_path_2: &str) -> (joined: String)
    ensures
        joined@ == spec_uri_path_join(uri_path_1@, uri_path_2@),
{
    let base = trim_end_matches(uri_path_1, PATH_SEPARATOR);
    let joined = base.concat(PATH_SEPARATOR_STRING);
    proof {
        reveal_strlit("/");
    }
    joined.concat(uri_path_2)
}

/// Up one segment for the URI path.
pub fn uri_path_parent(uri_path: &str) -> (parent: String)
    requires
        uri_path_parent_defined(uri_path@),
    ensures
        parent@ == spec_uri_path_parent(uri_path@),
{
    let v = chars_of(uri_path);
    proof {
        lemma_rfind_char(v@, PATH_SEPARATOR);
    }
    let mut last_slash: usize = match rfind_char_exec(&v, PATH_SEPARATOR) {
        Some(last_slash) => last_slash,
        None => 1,
    };
    if last_slash == 0 {
        last_slash = 1;
    }
    let prefix = slice_chars(&v, 0, last_slash);
    string_of(&prefix)
}

} // verus!
