//! The lines of a text.
use crate::convert::text::{chars_of, is_blank, is_white_space, string_of};
use vstd::prelude::*;

verus! {

/// The position of the first line feed of `s` at or after `from`, or the
/// length of `s` where there is none.
pub open spec fn line_end(s: Seq<char>, from: int) -> int
    decreases s.len() - from,
{
    if from < 0 || from >= s.len() {
        s.len() as int
    } else if s[from] == '\n' {
        from
    } else {
        line_end(s, from + 1)
    }
}

/// The line that starts at `from` and is closed at `end`: where a line feed
/// closes it, one carriage return just before that line feed belongs to the
/// line ending and not to the line.
pub open spec fn line_between(s: Seq<char>, from: int, end: int) -> Seq<char> {
    if from < end < s.len() && s[end - 1] == '\r' {
        s.subrange(from, end - 1)
    } else {
        s.subrange(from, end)
    }
}

/// The lines of `s` from position `from` on.
pub open spec fn lines_from(s: Seq<char>, from: int) -> Seq<Seq<char>>
    decreases s.len() + 1 - from,
{
    if from < 0 || from >= s.len() {
        Seq::empty()
    } else {
        let end = line_end(s, from);
        proof {
            lemma_line_end(s, from);
        }
        seq![line_between(s, from, end)] + lines_from(s, end + 1)
    }
}

/// The lines of a text. A line ends at a line feed, or at a carriage return
/// directly followed by one; the line ending is no part of the line. The
/// last line needs no line ending, and an empty text has no lines.
pub open spec fn lines_of(s: Seq<char>) -> Seq<Seq<char>> {
    lines_from(s, 0)
}

/// `line_end` stays within the text and finds the first line feed.
pub proof fn lemma_line_end(s: Seq<char>, from: int)
    requires
        0 <= from <= s.len(),
    ensures
        from <= line_end(s, from) <= s.len(),
        line_end(s, from) < s.len() ==> s[line_end(s, from)] == '\n',
        forall|i: int| from <= i < line_end(s, from) ==> s[i] != '\n',
    decreases s.len() - from,
{
    if from < s.len() && s[from] != '\n' {
        lemma_line_end(s, from + 1);
    }
}

/// The end of a line does not depend on what stands before the line.
pub proof fn lemma_line_end_after_prefix(a: Seq<char>, b: Seq<char>, from: int)
    requires
        0 <= from <= b.len(),
    ensures
        line_end(a + b, a.len() + from) == a.len() + line_end(b, from),
    decreases b.len() - from,
{
    if from < b.len() {
        assert((a + b)[a.len() + from] == b[from]);
        if b[from] != '\n' {
            lemma_line_end_after_prefix(a, b, from + 1);
        }
    }
}

/// The lines from a position on do not depend on what stands before it.
pub proof fn lemma_lines_after_prefix(a: Seq<char>, b: Seq<char>, from: int)
    requires
        0 <= from <= b.len(),
    ensures
        lines_from(a + b, a.len() + from) == lines_from(b, from),
    decreases b.len() + 1 - from,
{
    if from < b.len() {
        let s = a + b;
        let end = line_end(b, from);
        lemma_line_end(b, from);
        lemma_line_end_after_prefix(a, b, from);
        if from < end {
            assert(s[a.len() + end - 1] == b[end - 1]);
        }
        assert(line_between(s, a.len() + from, a.len() + end) =~= line_between(b, from, end));
        if end < b.len() {
            lemma_lines_after_prefix(a, b, end + 1);
        }
        assert(lines_from(s, a.len() + end + 1) == lines_from(b, end + 1));
        assert(lines_from(s, a.len() + from) == seq![
            line_between(s, a.len() + from, a.len() + end),
        ] + lines_from(s, a.len() + end + 1));
    }
}

/// Up to a line feed, the end of a line does not depend on what follows
/// the line feed.
pub proof fn lemma_line_end_before_suffix(a: Seq<char>, b: Seq<char>, from: int)
    requires
        0 <= from < a.len(),
        a.last() == '\n',
    ensures
        line_end(a + b, from) == line_end(a, from),
        line_end(a, from) < a.len(),
    decreases a.len() - from,
{
    assert((a + b)[from] == a[from]);
    if a[from] != '\n' {
        lemma_line_end_before_suffix(a, b, from + 1);
    }
}

/// Where one text ends in a line feed, the lines of that text and of a
/// second one are the lines of the two texts written one after the other.
pub proof fn lemma_lines_of_two_texts(a: Seq<char>, b: Seq<char>, from: int)
    requires
        0 <= from <= a.len(),
        a.len() == 0 || a.last() == '\n',
    ensures
        lines_from(a + b, from) == lines_from(a, from) + lines_of(b),
    decreases a.len() + 1 - from,
{
    let s = a + b;
    if from == a.len() {
        lemma_lines_after_prefix(a, b, 0);
        assert(lines_from(a, from) + lines_of(b) =~= lines_of(b));
    } else {
        let end = line_end(a, from);
        lemma_line_end(a, from);
        lemma_line_end_before_suffix(a, b, from);
        if from < end {
            assert(s[end - 1] == a[end - 1]);
        }
        assert(line_between(s, from, end) =~= line_between(a, from, end));
        lemma_lines_of_two_texts(a, b, end + 1);
        assert(lines_from(s, from) =~= lines_from(a, from) + lines_of(b));
    }
}

/// A run of whitespace that is closed by a line feed is one blank line.
pub proof fn lemma_blank_line(gap: Seq<char>)
    requires
        is_blank(gap),
        !gap.contains('\n'),
    ensures
        lines_of(gap.push('\n')).len() == 1,
        is_blank(lines_of(gap.push('\n'))[0]),
{
    let s = gap.push('\n');
    let n = gap.len() as int;
    lemma_line_end(s, 0);
    let end = line_end(s, 0);
    assert(s[n] == '\n');
    if end < n {
        assert(gap[end] == '\n');
        assert(gap.contains('\n'));
    }
    assert(end == n);
    assert(lines_from(s, n + 1) =~= Seq::empty());
    let line = line_between(s, 0, n);
    assert(lines_of(s) =~= seq![line]);
    assert forall|i: int| 0 <= i < line.len() implies is_white_space(#[trigger] line[i]) by {
        assert(line[i] == gap[i]);
    }
}

/// A line feed at the end of a text does not move the end of any line.
pub proof fn lemma_line_end_of_closed_text(s: Seq<char>, from: int)
    requires
        0 <= from <= s.len(),
    ensures
        line_end(s.push('\n'), from) == line_end(s, from),
    decreases s.len() - from,
{
    let t = s.push('\n');
    if from < s.len() {
        assert(t[from] == s[from]);
        if s[from] != '\n' {
            lemma_line_end_of_closed_text(s, from + 1);
        }
    } else {
        assert(t[from] == '\n');
    }
}

/// Where the last line of a text is not closed, closing it by a line feed
/// makes no line blank that was not blank before.
pub proof fn lemma_closing_makes_no_blank_line(s: Seq<char>, from: int)
    requires
        0 <= from < s.len(),
        s.last() != '\n',
        forall|k: int|
            0 <= k < lines_from(s, from).len() ==> !is_blank(#[trigger] lines_from(s, from)[k]),
    ensures
        forall|k: int|
            0 <= k < lines_from(s.push('\n'), from).len() ==> !is_blank(
                #[trigger] lines_from(s.push('\n'), from)[k],
            ),
    decreases s.len() - from,
{
    let t = s.push('\n');
    let n = s.len() as int;
    let end = line_end(s, from);
    lemma_line_end(s, from);
    lemma_line_end_of_closed_text(s, from);
    let old_line = line_between(s, from, end);
    let new_line = line_between(t, from, end);
    assert(lines_from(s, from)[0] == old_line);
    assert(!is_blank(old_line));
    if end < n {
        if from < end {
            assert(t[end - 1] == s[end - 1]);
        }
        assert(new_line =~= old_line);
        assert(s[n - 1] == s.last());
        assert(end + 1 < n);
        assert forall|k: int| 0 <= k < lines_from(s, end + 1).len() implies !is_blank(
            #[trigger] lines_from(s, end + 1)[k],
        ) by {
            assert(lines_from(s, end + 1)[k] == lines_from(s, from)[k + 1]);
        }
        lemma_closing_makes_no_blank_line(s, end + 1);
        assert forall|k: int| 0 <= k < lines_from(t, from).len() implies !is_blank(
            #[trigger] lines_from(t, from)[k],
        ) by {
            if k > 0 {
                assert(lines_from(t, from)[k] == lines_from(t, end + 1)[k - 1]);
            }
        }
    } else {
        let i = choose|i: int| 0 <= i < old_line.len() && !is_white_space(old_line[i]);
        assert(old_line[i] == s[from + i]);
        assert(t[n - 1] == s[n - 1]);
        if s[n - 1] == '\r' {
            assert(is_white_space('\r'));
            assert(from + i < n - 1);
        }
        assert(new_line[i] == s[from + i]);
        assert(!is_blank(new_line));
        assert(lines_from(t, n + 1) =~= Seq::empty());
        assert(lines_from(t, from) =~= seq![new_line]);
    }
}

/// The lines of `text`.
pub fn split_lines(text: &str) -> (lines: Vec<String>)
    ensures
        lines.deep_view() == lines_of(text@),
{
    let v = chars_of(text);
    let mut lines: Vec<String> = Vec::new();
    let mut from: usize = 0;
    while from < v.len()
        invariant
            from <= v.len(),
            v@ == text@,
            lines_of(v@) == lines.deep_view() + lines_from(v@, from as int),
        decreases v.len() - from,
    {
        let mut end: usize = from;
        while end < v.len() && v[end] != '\n'
            invariant
                from <= end <= v.len(),
                line_end(v@, from as int) == line_end(v@, end as int),
            decreases v.len() - end,
        {
            end += 1;
        }
        let cut: usize = if from < end && end < v.len() && v[end - 1] == '\r' {
            end - 1
        } else {
            end
        };
        let line = string_of(&v, from, cut);
        let ghost before = lines.deep_view();
        proof {
            assert(line_end(v@, from as int) == end);
            assert(line@ == line_between(v@, from as int, end as int));
            assert(before.push(line@) + lines_from(v@, end + 1) =~= before + lines_from(
                v@,
                from as int,
            ));
        }
        lines.push(line);
        assert(lines.deep_view() =~= before.push(line@));
        if end < v.len() {
            from = end + 1;
        } else {
            from = end;
        }
    }
    assert(lines.deep_view() + lines_from(v@, from as int) =~= lines.deep_view());
    lines
}

} // verus!
