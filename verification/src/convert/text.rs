//! Characters and whitespace.
use vstd::prelude::*;

verus! {

/// Whether a character counts as whitespace: it is one of the 25 characters
/// that Unicode lists as `White_Space`. Among them are the space, the tab,
/// the line feed and the carriage return.
pub open spec fn is_white_space(c: char) -> bool {
    let n = c as u32;
    ||| 0x09 <= n <= 0x0d
    ||| n == 0x20
    ||| n == 0x85
    ||| n == 0xa0
    ||| n == 0x1680
    ||| 0x2000 <= n <= 0x200a
    ||| n == 0x2028
    ||| n == 0x2029
    ||| n == 0x202f
    ||| n == 0x205f
    ||| n == 0x3000
}

/// `char::is_whitespace` tells whether the character has the Unicode
/// attribute `White_Space`.
pub assume_specification[ char::is_whitespace ](c: char) -> (b: bool)
    ensures
        b == is_white_space(c),
;

/// `String::push` appends the one character to the end of the string.
pub assume_specification[ String::push ](s: &mut String, c: char)
    ensures
        final(s)@ == old(s)@.push(c),
;

/// The characters of `s`, in order.
pub fn chars_of(s: &str) -> (v: Vec<char>)
    ensures
        v@ == s@,
{
    let mut v: Vec<char> = Vec::new();
    let mut it = s.chars();
    for c in iter: it
        invariant
            v@ == iter.seq().take(iter.index()),
    {
        v.push(c);
    }
    v
}

/// The string made of the characters `v[from..to]`.
pub fn string_of(v: &Vec<char>, from: usize, to: usize) -> (s: String)
    requires
        from <= to <= v.len(),
    ensures
        s@ == v@.subrange(from as int, to as int),
{
    let mut s = String::new();
    let mut i: usize = from;
    while i < to
        invariant
            from <= i <= to <= v.len(),
            s@ == v@.subrange(from as int, i as int),
        decreases to - i,
    {
        s.push(v[i]);
        i += 1;
    }
    s
}

/// Whether a line is blank: it holds nothing but whitespace.
pub open spec fn is_blank(line: Seq<char>) -> bool {
    forall|i: int| 0 <= i < line.len() ==> is_white_space(#[trigger] line[i])
}

/// `s` without the whitespace it starts with.
pub open spec fn trim_start(s: Seq<char>) -> Seq<char>
    decreases s.len(),
{
    if s.len() > 0 && is_white_space(s[0]) {
        trim_start(s.drop_first())
    } else {
        s
    }
}

/// `s` without the whitespace it ends with.
pub open spec fn trim_end(s: Seq<char>) -> Seq<char>
    decreases s.len(),
{
    if s.len() > 0 && is_white_space(s.last()) {
        trim_end(s.drop_last())
    } else {
        s
    }
}

/// `s` without the whitespace at either end.
pub open spec fn trimmed(s: Seq<char>) -> Seq<char> {
    trim_end(trim_start(s))
}

/// Dropping a whitespace prefix of length `k` first does not change what
/// `trim_start` gives.
pub proof fn lemma_trim_start_skips(s: Seq<char>, k: int)
    requires
        0 <= k <= s.len(),
        forall|i: int| 0 <= i < k ==> is_white_space(#[trigger] s[i]),
    ensures
        trim_start(s) == trim_start(s.subrange(k, s.len() as int)),
    decreases k,
{
    if k == 0 {
        assert(s.subrange(0, s.len() as int) =~= s);
    } else {
        let t = s.drop_first();
        assert forall|i: int| 0 <= i < k - 1 implies is_white_space(#[trigger] t[i]) by {
            assert(t[i] == s[i + 1]);
        }
        lemma_trim_start_skips(t, k - 1);
        assert(t.subrange(k - 1, t.len() as int) =~= s.subrange(k, s.len() as int));
    }
}

/// Dropping a whitespace suffix first does not change what `trim_end` gives.
pub proof fn lemma_trim_end_skips(s: Seq<char>, k: int)
    requires
        0 <= k <= s.len(),
        forall|i: int| k <= i < s.len() ==> is_white_space(#[trigger] s[i]),
    ensures
        trim_end(s) == trim_end(s.subrange(0, k)),
    decreases s.len() - k,
{
    if k == s.len() {
        assert(s.subrange(0, k) =~= s);
    } else {
        let t = s.drop_last();
        assert forall|i: int| k <= i < t.len() implies is_white_space(#[trigger] t[i]) by {
            assert(t[i] == s[i]);
        }
        lemma_trim_end_skips(t, k);
        assert(t.subrange(0, k) =~= s.subrange(0, k));
    }
}

/// A line is blank exactly when trimming leaves nothing of it.
pub proof fn lemma_blank_trims_to_nothing(line: Seq<char>)
    ensures
        is_blank(line) <==> trimmed(line).len() == 0,
    decreases line.len(),
{
    if line.len() == 0 {
    } else if is_white_space(line[0]) {
        let rest = line.drop_first();
        lemma_blank_trims_to_nothing(rest);
        if is_blank(line) {
            assert forall|i: int| 0 <= i < rest.len() implies is_white_space(
                #[trigger] rest[i],
            ) by {
                assert(rest[i] == line[i + 1]);
            }
        }
        if is_blank(rest) {
            assert forall|i: int| 0 <= i < line.len() implies is_white_space(
                #[trigger] line[i],
            ) by {
                if i > 0 {
                    assert(line[i] == rest[i - 1]);
                }
            }
        }
    } else {
        lemma_trim_end_keeps_head(line);
    }
}

/// Trimming the end of a text that starts with a visible character leaves
/// that character in place.
pub proof fn lemma_trim_end_keeps_head(s: Seq<char>)
    requires
        s.len() > 0,
        !is_white_space(s[0]),
    ensures
        trim_end(s).len() > 0,
        trim_end(s)[0] == s[0],
    decreases s.len(),
{
    if is_white_space(s.last()) {
        lemma_trim_end_keeps_head(s.drop_last());
    }
}

/// What `trim_start` leaves is empty or starts with a visible character.
pub proof fn lemma_trim_start_head(s: Seq<char>)
    ensures
        trim_start(s).len() > 0 ==> !is_white_space(trim_start(s)[0]),
    decreases s.len(),
{
    if s.len() > 0 && is_white_space(s[0]) {
        lemma_trim_start_head(s.drop_first());
    }
}

/// What `trim_end` leaves is empty or ends with a visible character.
pub proof fn lemma_trim_end_last(s: Seq<char>)
    ensures
        trim_end(s).len() > 0 ==> !is_white_space(trim_end(s).last()),
    decreases s.len(),
{
    if s.len() > 0 && is_white_space(s.last()) {
        lemma_trim_end_last(s.drop_last());
    }
}

/// A trimmed text that is not empty starts and ends with a visible
/// character.
pub proof fn lemma_trimmed_ends(s: Seq<char>)
    ensures
        trimmed(s).len() > 0 ==> !is_white_space(trimmed(s)[0]) && !is_white_space(
            trimmed(s).last(),
        ),
{
    let t = trim_start(s);
    lemma_trim_start_head(s);
    lemma_trim_end_last(t);
    if t.len() > 0 {
        lemma_trim_end_keeps_head(t);
    }
}

/// Whether `line` is blank.
pub fn blank(line: &str) -> (b: bool)
    ensures
        b == is_blank(line@),
{
    let v = chars_of(line);
    let mut i: usize = 0;
    while i < v.len()
        invariant
            i <= v.len(),
            v@ == line@,
            forall|j: int| 0 <= j < i ==> is_white_space(#[trigger] v@[j]),
        decreases v.len() - i,
    {
        if !v[i].is_whitespace() {
            return false;
        }
        i += 1;
    }
    true
}

/// `text` without the whitespace at either end.
pub fn trim(text: &str) -> (r: String)
    ensures
        r@ == trimmed(text@),
{
    let v = chars_of(text);
    let mut from: usize = 0;
    while from < v.len() && v[from].is_whitespace()
        invariant
            from <= v.len(),
            forall|j: int| 0 <= j < from ==> is_white_space(#[trigger] v@[j]),
        decreases v.len() - from,
    {
        from += 1;
    }
    let mut to: usize = v.len();
    while to > from && v[to - 1].is_whitespace()
        invariant
            from <= to <= v.len(),
            forall|j: int| to <= j < v.len() ==> is_white_space(#[trigger] v@[j]),
        decreases to,
    {
        to -= 1;
    }
    proof {
        let s = v@;
        let tail = s.subrange(from as int, s.len() as int);
        lemma_trim_start_skips(s, from as int);
        assert(trim_start(s) == tail) by {
            if from < s.len() {
                assert(tail[0] == s[from as int]);
            }
        }
        assert forall|j: int| to - from <= j < tail.len() implies is_white_space(
            #[trigger] tail[j],
        ) by {
            assert(tail[j] == s[j + from]);
        }
        lemma_trim_end_skips(tail, to - from);
        let kept = tail.subrange(0, to - from);
        assert(kept =~= s.subrange(from as int, to as int));
        assert(trim_end(kept) == kept) by {
            if kept.len() > 0 {
                assert(kept.last() == s[to - 1]);
            }
        }
    }
    string_of(&v, from, to)
}

} // verus!
