//! Small operations on text: comparing, cutting at a mark, taking a suffix
//! off and splitting a path template into its segments.

use vstd::prelude::*;
use vstd::string::StrSliceExecFns;
use vstd::string::StringExecFns;

verus! {

/// Whether `a` and `b` hold the same characters.
pub fn same_text(a: &str, b: &str) -> (r: bool)
    ensures
        r == (a@ == b@),
{
    let left = String::from_str(a);
    let right = String::from_str(b);
    left == right
}

/// Whether `s` begins with the character `c`.
pub open spec fn begins_with(s: Seq<char>, c: char) -> bool {
    s.len() > 0 && s[0] == c
}

/// Whether `s` begins with the character `c`.
pub fn starts_with_char(s: &str, c: char) -> (r: bool)
    ensures
        r == begins_with(s@, c),
{
    !s.is_empty() && s.get_char(0) == c
}

/// Whether the last characters of `s` are those of `suffix`.
pub open spec fn has_suffix(s: Seq<char>, suffix: Seq<char>) -> bool {
    suffix.len() <= s.len() && s.subrange(s.len() - suffix.len(), s.len() as int) == suffix
}

/// Whether the last characters of `s` are those of `suffix`.
pub fn ends_with(s: &str, suffix: &str) -> (r: bool)
    ensures
        r == has_suffix(s@, suffix@),
{
    let n: usize = s.unicode_len();
    let m: usize = suffix.unicode_len();
    if n < m {
        return false;
    }
    same_text(s.substring_char(n - m, n), suffix)
}

/// `s` without `suffix` at its end, where `s` ends with it.
pub open spec fn stripped(s: Seq<char>, suffix: Seq<char>) -> Option<Seq<char>> {
    if has_suffix(s, suffix) {
        Some(s.subrange(0, s.len() - suffix.len()))
    } else {
        None
    }
}

/// `s` without `suffix` at its end, where `s` ends with it.
pub fn strip_suffix<'a>(s: &'a str, suffix: &str) -> (r: Option<&'a str>)
    ensures
        match r {
            Some(stem) => stripped(s@, suffix@) == Some(stem@),
            None => stripped(s@, suffix@) is None,
        },
{
    if ends_with(s, suffix) {
        let n: usize = s.unicode_len();
        let m: usize = suffix.unicode_len();
        Some(s.substring_char(0, n - m))
    } else {
        None
    }
}

/// Whether the first characters of `s` are those of `prefix`.
pub open spec fn has_prefix(s: Seq<char>, prefix: Seq<char>) -> bool {
    prefix.len() <= s.len() && s.subrange(0, prefix.len() as int) == prefix
}

/// `s` without `prefix` at its start, where `s` starts with it.
pub open spec fn unprefixed(s: Seq<char>, prefix: Seq<char>) -> Option<Seq<char>> {
    if has_prefix(s, prefix) {
        Some(s.subrange(prefix.len() as int, s.len() as int))
    } else {
        None
    }
}

/// `s` without `prefix` at its start, where `s` starts with it.
pub fn strip_prefix<'a>(s: &'a str, prefix: &str) -> (r: Option<&'a str>)
    ensures
        match r {
            Some(rest) => unprefixed(s@, prefix@) == Some(rest@),
            None => unprefixed(s@, prefix@) is None,
        },
{
    let n: usize = s.unicode_len();
    let m: usize = prefix.unicode_len();
    if n < m {
        return None;
    }
    if same_text(s.substring_char(0, m), prefix) {
        Some(s.substring_char(m, n))
    } else {
        None
    }
}

/// Whether the character `c` occurs in `s`.
pub fn contains_char(s: &str, c: char) -> (r: bool)
    ensures
        r == s@.contains(c),
{
    let mut found = false;
    for x in it: s.chars()
        invariant
            it.seq() == s@,
            found <==> exists|k: int| 0 <= k < it.index() && s@[k] == c,
    {
        if x == c {
            found = true;
        }
    }
    found
}

/// The first position at or after `from` that holds `mark`, or the length of
/// `s` where there is none.
pub open spec fn next_mark(s: Seq<char>, mark: char, from: int) -> int
    decreases s.len() - from,
{
    if 0 <= from < s.len() && s[from] != mark {
        next_mark(s, mark, from + 1)
    } else {
        from
    }
}

/// `next_mark` in terms of positions: with no `mark` between `from` and `to`,
/// and `to` either the end of `s` or a position that holds `mark`, it is `to`.
pub proof fn lemma_next_mark(s: Seq<char>, mark: char, from: int, to: int)
    requires
        0 <= from <= to <= s.len(),
        forall|k: int| from <= k < to ==> s[k] != mark,
        to < s.len() ==> s[to] == mark,
    ensures
        next_mark(s, mark, from) == to,
    decreases to - from,
{
    if from < to {
        lemma_next_mark(s, mark, from + 1, to);
    }
}

/// The next mark is never in front of where the search starts.
pub proof fn lemma_next_mark_bounds(s: Seq<char>, mark: char, from: int)
    requires
        0 <= from <= s.len(),
    ensures
        from <= next_mark(s, mark, from) <= s.len(),
    decreases s.len() - from,
{
    if from < s.len() && s[from] != mark {
        lemma_next_mark_bounds(s, mark, from + 1);
    }
}

/// The pieces into which the occurrences of `mark` cut the part of `s` that
/// starts at `from`. A text without `mark` is one piece; a `mark` at the end
/// leaves an empty piece behind it.
pub open spec fn pieces_from(s: Seq<char>, mark: char, from: int) -> Seq<Seq<char>>
    decreases s.len() - from,
{
    if 0 <= from <= s.len() {
        let to = next_mark(s, mark, from);
        if to < s.len() {
            proof {
                lemma_next_mark_bounds(s, mark, from);
            }
            seq![s.subrange(from, to)] + pieces_from(s, mark, to + 1)
        } else {
            seq![s.subrange(from, s.len() as int)]
        }
    } else {
        Seq::empty()
    }
}

/// The pieces into which the occurrences of `mark` cut `s`.
pub open spec fn pieces(s: Seq<char>, mark: char) -> Seq<Seq<char>> {
    pieces_from(s, mark, 0)
}

/// The texts that a list of string slices holds.
pub open spec fn slices(list: Seq<&str>) -> Seq<Seq<char>> {
    list.map_values(|piece: &str| piece@)
}

/// The pieces into which the occurrences of `mark` cut `s`.
pub fn split<'a>(s: &'a str, mark: char) -> (r: Vec<&'a str>)
    ensures
        slices(r@) == pieces(s@, mark),
{
    let len: usize = s.unicode_len();
    let mut out: Vec<&'a str> = Vec::new();
    let mut start: usize = 0;
    let mut pos: usize = 0;
    assert(slices(out@) + pieces(s@, mark) =~= pieces(s@, mark));
    for c in it: s.chars()
        invariant
            pos == it.index(),
            it.seq() == s@,
            len == s@.len(),
            start <= pos,
            forall|k: int| start <= k < pos ==> s@[k] != mark,
            pieces(s@, mark) == slices(out@) + pieces_from(s@, mark, start as int),
    {
        if c == mark {
            proof {
                lemma_next_mark(s@, mark, start as int, pos as int);
            }
            let ghost before = slices(out@);
            let piece = s.substring_char(start, pos);
            out.push(piece);
            assert(slices(out@) =~= before.push(piece@));
            assert(before.push(piece@) + pieces_from(s@, mark, pos + 1) =~= before + (seq![
                piece@,
            ] + pieces_from(s@, mark, pos + 1)));
            start = pos + 1;
        }
        pos = pos + 1;
    }
    proof {
        lemma_next_mark(s@, mark, start as int, len as int);
    }
    let ghost before = slices(out@);
    let piece = s.substring_char(start, len);
    out.push(piece);
    assert(slices(out@) =~= before + seq![piece@]);
    out
}

} // verus!
