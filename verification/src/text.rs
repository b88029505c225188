//! Byte-level text utilities: whitespace classification, left-trimming,
//! substring search and splitting a document into lines.
use vstd::prelude::*;

verus! {

/// ASCII space.
pub const SPACE: u8 = 32;

/// ASCII horizontal tab.
pub const TAB: u8 = 9;

/// ASCII line feed.
pub const NEWLINE: u8 = 10;

/// ASCII carriage return.
pub const CARRIAGE_RETURN: u8 = 13;

/// ASCII form feed.
pub const FORM_FEED: u8 = 12;

/// ASCII colon.
pub const COLON: u8 = 58;

/// ASCII whitespace: space, tab, line feed, form feed or carriage return.
pub open spec fn is_space(b: u8) -> bool {
    b == SPACE || b == TAB || b == NEWLINE || b == FORM_FEED || b == CARRIAGE_RETURN
}

/// Decides `is_space`.
pub fn space_byte(b: u8) -> (r: bool)
    ensures
        r == is_space(b),
{
    b == SPACE || b == TAB || b == NEWLINE || b == FORM_FEED || b == CARRIAGE_RETURN
}

/// A line is blank when every byte of it is whitespace.
pub open spec fn is_blank(line: Seq<u8>) -> bool {
    forall|i: int| 0 <= i < line.len() ==> is_space(#[trigger] line[i])
}

/// Decides `is_blank`.
pub fn blank_line(line: &Vec<u8>) -> (r: bool)
    ensures
        r == is_blank(line@),
{
    let mut i: usize = 0;
    while i < line.len()
        invariant
            0 <= i <= line@.len(),
            forall|m: int| 0 <= m < i ==> is_space(#[trigger] line@[m]),
        decreases line@.len() - i,
    {
        if !space_byte(line[i]) {
            return false;
        }
        i += 1;
    }
    true
}

/// Index of the first non-whitespace byte at or after `i`, or `s.len()` if none.
pub open spec fn first_non_space(s: Seq<u8>, i: int) -> int
    decreases s.len() - i,
        when 0 <= i <= s.len()
{
    if i >= s.len() {
        i
    } else if !is_space(s[i]) {
        i
    } else {
        first_non_space(s, i + 1)
    }
}

/// The line with its leading whitespace removed.
pub open spec fn trim_start_seq(s: Seq<u8>) -> Seq<u8> {
    s.skip(first_non_space(s, 0))
}

/// Copy of the bytes of `v` in positions `a .. b`.
pub fn subrange_vec(v: &Vec<u8>, a: usize, b: usize) -> (r: Vec<u8>)
    requires
        a <= b <= v@.len(),
    ensures
        r@ == v@.subrange(a as int, b as int),
{
    let mut out: Vec<u8> = Vec::new();
    let mut m: usize = a;
    while m < b
        invariant
            a <= m <= b <= v@.len(),
            out@ == v@.subrange(a as int, m as int),
        decreases b - m,
    {
        out.push(v[m]);
        proof {
            assert(out@ =~= v@.subrange(a as int, m + 1 as int));
        }
        m += 1;
    }
    out
}

/// The line with its leading whitespace removed.
pub fn trim_start(line: &Vec<u8>) -> (r: Vec<u8>)
    ensures
        r@ == trim_start_seq(line@),
{
    let mut i: usize = 0;
    while i < line.len() && space_byte(line[i])
        invariant
            0 <= i <= line@.len(),
            first_non_space(line@, 0) == first_non_space(line@, i as int),
        decreases line@.len() - i,
    {
        i += 1;
    }
    subrange_vec(line, i, line.len())
}

/// The pattern occurs in `line` starting at position `i`.
pub open spec fn match_at(line: Seq<u8>, pat: Seq<u8>, i: int) -> bool {
    0 <= i && i + pat.len() <= line.len() && line.subrange(i, i + pat.len()) == pat
}

/// The pattern occurs somewhere in `line`.
pub open spec fn contains_seq(line: Seq<u8>, pat: Seq<u8>) -> bool {
    exists|i: int| match_at(line, pat, i)
}

/// Decides `match_at`.
pub fn pattern_at(line: &Vec<u8>, pat: &Vec<u8>, i: usize) -> (r: bool)
    requires
        i + pat@.len() <= line@.len(),
    ensures
        r == match_at(line@, pat@, i as int),
{
    let n = line.len();
    let mut m: usize = 0;
    while m < pat.len()
        invariant
            0 <= m <= pat@.len(),
            i + pat@.len() <= line@.len(),
            line@.len() == n,
            forall|q: int| 0 <= q < m ==> line@[i + q] == #[trigger] pat@[q],
        decreases pat@.len() - m,
    {
        if line[i + m] != pat[m] {
            assert(line@.subrange(i as int, i + pat@.len())[m as int] != pat@[m as int]);
            return false;
        }
        m += 1;
    }
    proof {
        assert(line@.subrange(i as int, i + pat@.len()) =~= pat@);
    }
    true
}

/// Decides `contains_seq`.
pub fn contains_pattern(line: &Vec<u8>, pat: &Vec<u8>) -> (r: bool)
    ensures
        r == contains_seq(line@, pat@),
{
    if pat.len() > line.len() {
        return false;
    }
    if pat.len() == 0 {
        proof {
            assert(match_at(line@, pat@, 0)) by {
                assert(line@.subrange(0, 0) =~= pat@);
            }
        }
        return true;
    }
    let last: usize = line.len() - pat.len();
    let mut i: usize = 0;
    while i <= last
        invariant
            0 <= i <= last + 1,
            1 <= pat@.len(),
            last + pat@.len() == line@.len() <= usize::MAX,
            forall|m: int| 0 <= m < i ==> !match_at(line@, pat@, m),
        decreases last - i + 1,
    {
        if pattern_at(line, pat, i) {
            return true;
        }
        i += 1;
    }
    false
}

/// Index of the last occurrence of the pattern at or before `i`, if any.
pub open spec fn rfind_from(line: Seq<u8>, pat: Seq<u8>, i: int) -> Option<int>
    decreases i + 1,
        when -1 - pat.len() <= i
{
    if i < 0 {
        None
    } else if match_at(line, pat, i) {
        Some(i)
    } else {
        rfind_from(line, pat, i - 1)
    }
}

/// Index of the last occurrence of the pattern in the whole line, if any.
pub open spec fn rfind_seq(line: Seq<u8>, pat: Seq<u8>) -> Option<int> {
    rfind_from(line, pat, line.len() - pat.len())
}

/// Computes `rfind_seq`.
pub fn rfind_pattern(line: &Vec<u8>, pat: &Vec<u8>) -> (r: Option<usize>)
    ensures
        match r {
            Some(i) => rfind_seq(line@, pat@) == Some(i as int),
            None => rfind_seq(line@, pat@) is None,
        },
{
    if pat.len() > line.len() {
        proof {
            assert(rfind_seq(line@, pat@) is None);
        }
        return None;
    }
    let mut i: usize = line.len() - pat.len();
    loop
        invariant
            0 <= i <= line@.len() - pat@.len(),
            rfind_seq(line@, pat@) == rfind_from(line@, pat@, i as int),
        decreases i,
    {
        if pattern_at(line, pat, i) {
            return Some(i);
        }
        if i == 0 {
            proof {
                assert(rfind_from(line@, pat@, -1) is None);
            }
            return None;
        }
        i -= 1;
    }
}

/// Index of the first line feed at or after `i`, or `s.len()` if none.
pub open spec fn first_newline(s: Seq<u8>, i: int) -> int
    decreases s.len() - i,
        when 0 <= i <= s.len()
{
    if i >= s.len() {
        i
    } else if s[i] == NEWLINE {
        i
    } else {
        first_newline(s, i + 1)
    }
}

/// `first_newline` stays within the document.
pub proof fn lemma_first_newline_bounds(s: Seq<u8>, i: int)
    requires
        0 <= i <= s.len(),
    ensures
        i <= first_newline(s, i) <= s.len(),
        first_newline(s, i) < s.len() ==> s[first_newline(s, i)] == NEWLINE,
    decreases s.len() - i,
{
    if i < s.len() && s[i] != NEWLINE {
        lemma_first_newline_bounds(s, i + 1);
    }
}

/// A terminated line with a trailing carriage return has it removed.
pub open spec fn strip_trailing_cr(l: Seq<u8>) -> Seq<u8> {
    if l.len() > 0 && l.last() == CARRIAGE_RETURN {
        l.drop_last()
    } else {
        l
    }
}

/// The lines of the document from position `i` on: segments split at each
/// line feed, a carriage return just before a line feed removed, and no
/// empty final segment after a terminating line feed.
pub open spec fn lines_from(s: Seq<u8>, i: int) -> Seq<Seq<u8>>
    decreases s.len() - i,
        when 0 <= i <= s.len()
        via lines_from_decreases
{
    if i >= s.len() {
        Seq::empty()
    } else {
        let j = first_newline(s, i);
        if j == s.len() {
            seq![s.subrange(i, j)]
        } else {
            seq![strip_trailing_cr(s.subrange(i, j))] + lines_from(s, j + 1)
        }
    }
}

#[via_fn]
proof fn lines_from_decreases(s: Seq<u8>, i: int) {
    if 0 <= i < s.len() {
        lemma_first_newline_bounds(s, i);
    }
}

/// The lines of the whole document.
pub open spec fn lines_seq(s: Seq<u8>) -> Seq<Seq<u8>> {
    lines_from(s, 0)
}

/// Splits the document into lines, as `lines_seq` describes.
pub fn split_lines(text: &Vec<u8>) -> (r: Vec<Vec<u8>>)
    ensures
        r.deep_view() == lines_seq(text@),
{
    let mut out: Vec<Vec<u8>> = Vec::new();
    let mut pos: usize = 0;
    while pos < text.len()
        invariant
            0 <= pos <= text@.len(),
            lines_seq(text@) == out.deep_view() + lines_from(text@, pos as int),
        decreases text@.len() - pos,
    {
        proof {
            lemma_first_newline_bounds(text@, pos as int);
        }
        let mut j: usize = pos;
        while j < text.len() && text[j] != NEWLINE
            invariant
                pos <= j <= text@.len(),
                first_newline(text@, pos as int) == first_newline(text@, j as int),
            decreases text@.len() - j,
        {
            j += 1;
        }
        assert(first_newline(text@, pos as int) == j as int);
        let mut seg = subrange_vec(text, pos, j);
        let ghost prev_dv = out.deep_view();
        if j < text.len() {
            if seg.len() > 0 && seg[seg.len() - 1] == CARRIAGE_RETURN {
                seg.pop();
            }
            assert(seg@ == strip_trailing_cr(text@.subrange(pos as int, j as int)));
            out.push(seg);
            proof {
                assert(seg.deep_view() =~= seg@);
                assert(out.deep_view() =~= prev_dv.push(seg@));
                assert(lines_seq(text@) =~= out.deep_view() + lines_from(text@, j + 1));
            }
            pos = j + 1;
        } else {
            out.push(seg);
            proof {
                assert(seg.deep_view() =~= seg@);
                assert(out.deep_view() =~= prev_dv.push(seg@));
                assert(lines_seq(text@) =~= out.deep_view() + lines_from(text@, j as int));
            }
            pos = j;
        }
    }
    proof {
        assert(lines_seq(text@) =~= out.deep_view());
    }
    out
}

} // verus!
