//! The name under which the observer joins the graph, as it is written on the
//! command line: a path such as `/intrepid/_discovery`, whose first two
//! non-empty segments are taken apart.

use vstd::prelude::*;
use vstd::string::StrSliceExecFns;

verus! {

/// The first position from `i` on that holds no `/`; the length of `s` where
/// there is none.
pub open spec fn skip_slashes(s: Seq<char>, i: int) -> int
    decreases s.len() - i,
{
    if 0 <= i < s.len() && s[i] == '/' {
        skip_slashes(s, i + 1)
    } else {
        i
    }
}

/// The first position from `i` on that holds a `/`; the length of `s` where
/// there is none.
pub open spec fn segment_end(s: Seq<char>, i: int) -> int
    decreases s.len() - i,
{
    if 0 <= i < s.len() && s[i] != '/' {
        segment_end(s, i + 1)
    } else {
        i
    }
}

/// The first and the second non-empty segment of `s`, where segments are
/// separated by `/`. A segment that `s` does not have is empty.
pub open spec fn name_parts(s: Seq<char>) -> (Seq<char>, Seq<char>) {
    let a = skip_slashes(s, 0);
    let b = segment_end(s, a);
    let c = skip_slashes(s, b);
    let d = segment_end(s, c);
    (s.subrange(a, b), s.subrange(c, d))
}

/// Walks over the slashes that start at `start`.
fn after_slashes(node: &str, len: usize, start: usize) -> (end: usize)
    requires
        len == node@.len(),
        start <= len,
    ensures
        start <= end <= len,
        end == skip_slashes(node@, start as int),
{
    let mut i: usize = start;
    while i < len && node.get_char(i) == '/'
        invariant
            start <= i <= len,
            len == node@.len(),
            skip_slashes(node@, start as int) == skip_slashes(node@, i as int),
        decreases len - i,
    {
        i += 1;
    }
    i
}

/// Walks over the segment that starts at `start`.
fn after_segment(node: &str, len: usize, start: usize) -> (end: usize)
    requires
        len == node@.len(),
        start <= len,
    ensures
        start <= end <= len,
        end == segment_end(node@, start as int),
{
    let mut i: usize = start;
    while i < len && node.get_char(i) != '/'
        invariant
            start <= i <= len,
            len == node@.len(),
            segment_end(node@, start as int) == segment_end(node@, i as int),
        decreases len - i,
    {
        i += 1;
    }
    i
}

/// Takes a node path apart into its first two non-empty segments, read as the
/// name and the namespace. Slashes that lead, trail or repeat separate
/// nothing, and what follows the second segment is left out.
pub fn parse_name<'a>(node: &'a str) -> (parts: (&'a str, &'a str))
    ensures
        parts.0@ == name_parts(node@).0,
        parts.1@ == name_parts(node@).1,
{
    let len = node.unicode_len();
    let a = after_slashes(node, len, 0);
    let b = after_segment(node, len, a);
    let c = after_slashes(node, len, b);
    let d = after_segment(node, len, c);
    (node.substring_char(a, b), node.substring_char(c, d))
}

/// The parts of a path hold no `/`, and the second is empty where the first
/// is.
pub proof fn law_parts_hold_no_slash(s: Seq<char>)
    ensures
        !name_parts(s).0.contains('/'),
        !name_parts(s).1.contains('/'),
        name_parts(s).0.len() == 0 ==> name_parts(s).1.len() == 0,
{
    let a = skip_slashes(s, 0);
    lemma_skip(s, 0);
    let b = segment_end(s, a);
    lemma_segment(s, a);
    let c = skip_slashes(s, b);
    lemma_skip(s, b);
    let d = segment_end(s, c);
    lemma_segment(s, c);
    let first = s.subrange(a, b);
    let second = s.subrange(c, d);
    if first.contains('/') {
        let i = choose|i: int| 0 <= i < first.len() && first[i] == '/';
        assert(s[a + i] == '/');
    }
    if second.contains('/') {
        let i = choose|i: int| 0 <= i < second.len() && second[i] == '/';
        assert(s[c + i] == '/');
    }
    if first.len() == 0 && second.len() > 0 {
        assert(a == b);
        assert(c == a);
        assert(d == c);
    }
}

/// After the slashes from `i` on comes the end or something else.
proof fn lemma_skip(s: Seq<char>, i: int)
    requires
        0 <= i <= s.len(),
    ensures
        i <= skip_slashes(s, i) <= s.len(),
        skip_slashes(s, i) < s.len() ==> s[skip_slashes(s, i)] != '/',
        forall|j: int| i <= j < skip_slashes(s, i) ==> s[j] == '/',
    decreases s.len() - i,
{
    if i < s.len() && s[i] == '/' {
        lemma_skip(s, i + 1);
    }
}

/// After the segment from `i` on comes the end or a slash.
proof fn lemma_segment(s: Seq<char>, i: int)
    requires
        0 <= i <= s.len(),
    ensures
        i <= segment_end(s, i) <= s.len(),
        segment_end(s, i) < s.len() ==> s[segment_end(s, i)] == '/',
        forall|j: int| i <= j < segment_end(s, i) ==> s[j] != '/',
    decreases s.len() - i,
{
    if i < s.len() && s[i] != '/' {
        lemma_segment(s, i + 1);
    }
}

} // verus!
