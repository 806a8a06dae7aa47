//! What holds of every conversion.
use crate::convert::conv::{
    block_for, blocks_of, body_of, conversion_of, convertible, is_timing, lemma_body_skips,
    line_kind, patterns_accepted, rewritten, srt_of, srt_of_lines, timing_count, LineKind, FULL,
    FULL_TEMPLATE, MODIFIER, NOTHING, SHORT, SHORT_TEMPLATE,
};
use crate::convert::cue::{block_text, cue_numbers, rendered, BlockView};
use crate::convert::number::{decimal, lemma_decimal_is_injective};
use crate::convert::lines::{
    lemma_blank_line, lemma_closing_makes_no_blank_line, lemma_lines_of_two_texts, lines_from,
    lines_of,
};
use crate::convert::markup::without_tags;
use crate::convert::pattern::regex_replace_all;
use crate::convert::text::{is_blank, is_white_space, lemma_trimmed_ends, trimmed};
use vstd::prelude::*;

verus! {

/// The blocks of all lines but the last are the blocks of all lines, but the
/// last.
pub proof fn lemma_blocks_of_prefix(lines: Seq<Seq<char>>)
    requires
        lines.len() > 0,
    ensures
        blocks_of(lines).drop_last() == blocks_of(lines.drop_last()),
        blocks_of(lines).last() == block_for(lines.last(), timing_count(lines.drop_last()) + 1),
{
    let front = lines.drop_last();
    assert forall|i: int| 0 <= i < front.len() implies blocks_of(lines)[i] == blocks_of(
        front,
    )[i] by {
        assert(front.take(i) =~= lines.take(i));
    }
    assert(blocks_of(lines).drop_last() =~= blocks_of(front));
    assert(lines.take(lines.len() - 1) =~= front);
}

/// Every timing line of the body opens exactly one cue, and the cues are
/// numbered 1, 2, 3 and so on, in the order of their timing lines: the
/// numbers written are exactly the numbers from 1 to the count of timing
/// lines.
pub proof fn lemma_cues_are_numbered_in_order(lines: Seq<Seq<char>>)
    ensures
        blocks_of(lines).len() == lines.len(),
        cue_numbers(blocks_of(lines)).len() == timing_count(lines),
        cue_numbers(blocks_of(lines)) == Seq::new(timing_count(lines), |k: int| (k + 1) as nat),
    decreases lines.len(),
{
    let numbers = Seq::new(timing_count(lines), |k: int| (k + 1) as nat);
    if lines.len() == 0 {
        assert(cue_numbers(blocks_of(lines)) =~= numbers);
    } else {
        lemma_blocks_of_prefix(lines);
        lemma_cues_are_numbered_in_order(lines.drop_last());
        assert(cue_numbers(blocks_of(lines)) =~= numbers);
    }
}

/// A timing line carries the number of timing lines up to and including
/// itself, and is written as an empty line, the line of that number and its
/// own rewritten line. Any other line carries no number and is written as
/// its one rewritten line.
pub proof fn lemma_number_of_a_line(lines: Seq<Seq<char>>, i: int)
    requires
        0 <= i < lines.len(),
    ensures
        is_timing(lines[i]) ==> blocks_of(lines)[i] == (BlockView::Cue {
            number: timing_count(lines.take(i + 1)),
            timing: rewritten(lines[i]),
        }),
        is_timing(lines[i]) ==> block_text(blocks_of(lines)[i]) == seq!['\n'] + decimal(
            timing_count(lines.take(i + 1)),
        ) + seq!['\n'] + rewritten(lines[i]) + seq!['\n'],
        !is_timing(lines[i]) ==> blocks_of(lines)[i] == (BlockView::Text {
            text: rewritten(lines[i]),
        }),
        !is_timing(lines[i]) ==> block_text(blocks_of(lines)[i]) == rewritten(lines[i]) + seq![
            '\n',
        ],
{
    assert(lines.take(i + 1).drop_last() =~= lines.take(i));
    assert(lines.take(i + 1).last() == lines[i]);
}

/// The count of timing lines does not fall as more lines are taken.
pub proof fn lemma_timing_count_grows(lines: Seq<Seq<char>>, i: int, j: int)
    requires
        0 <= i <= j <= lines.len(),
    ensures
        timing_count(lines.take(i)) <= timing_count(lines.take(j)),
    decreases j - i,
{
    if i < j {
        lemma_timing_count_grows(lines, i, j - 1);
        assert(lines.take(j).drop_last() =~= lines.take(j - 1));
    }
}

/// No number is written twice: of two timing lines the later one has the
/// greater number, and the two numbers are written with different digits.
pub proof fn lemma_no_number_is_written_twice(lines: Seq<Seq<char>>, i: int, j: int)
    requires
        0 <= i < j < lines.len(),
    ensures
        is_timing(lines[i]) && is_timing(lines[j]) ==> {
            let first = timing_count(lines.take(i + 1));
            let second = timing_count(lines.take(j + 1));
            &&& blocks_of(lines)[i]->number == first
            &&& blocks_of(lines)[j]->number == second
            &&& first < second
            &&& decimal(first) != decimal(second)
        },
{
    if is_timing(lines[i]) && is_timing(lines[j]) {
        let first = timing_count(lines.take(i + 1));
        let second = timing_count(lines.take(j + 1));
        lemma_number_of_a_line(lines, i);
        lemma_number_of_a_line(lines, j);
        lemma_timing_count_grows(lines, i + 1, j);
        assert(lines.take(j + 1).drop_last() =~= lines.take(j));
        assert(lines.take(j + 1).last() == lines[j]);
        assert(first < second);
        if decimal(first) == decimal(second) {
            lemma_decimal_is_injective(first, second);
        }
    }
}

/// The header is dropped: whatever lines stand before the first blank line,
/// the output is made from the lines after it alone.
pub proof fn lemma_header_is_dropped(
    header: Seq<Seq<char>>,
    blank: Seq<char>,
    rest: Seq<Seq<char>>,
)
    requires
        forall|i: int| 0 <= i < header.len() ==> !is_blank(#[trigger] header[i]),
        is_blank(blank),
    ensures
        body_of(header + seq![blank] + rest) == rest,
        srt_of_lines(header + seq![blank] + rest) == trimmed(rendered(blocks_of(rest))),
{
    let lines = header + seq![blank] + rest;
    let k = header.len() as int;
    assert forall|i: int| 0 <= i < k implies !is_blank(#[trigger] lines[i]) by {
        assert(lines[i] == header[i]);
    }
    lemma_body_skips(lines, k);
    assert(lines.skip(k)[0] == blank);
    assert(lines.skip(k).drop_first() =~= rest);
}

/// A document without a blank line is all header: its output is empty.
pub proof fn lemma_all_header_gives_nothing(lines: Seq<Seq<char>>)
    requires
        forall|i: int| 0 <= i < lines.len() ==> !is_blank(#[trigger] lines[i]),
    ensures
        body_of(lines).len() == 0,
        srt_of_lines(lines).len() == 0,
{
    lemma_body_skips(lines, lines.len() as int);
    assert(lines.skip(lines.len() as int).len() == 0);
    assert(blocks_of(body_of(lines)).len() == 0);
}

/// The header is dropped, said of the text itself: where a text is made of
/// a header of non-blank lines, a blank line and a rest, the output is made
/// from the rest alone.
pub proof fn lemma_header_text_is_dropped(header: Seq<char>, gap: Seq<char>, rest: Seq<char>)
    requires
        header.len() == 0 || header.last() == '\n',
        forall|i: int|
            0 <= i < lines_of(header).len() ==> !is_blank(#[trigger] lines_of(header)[i]),
        is_blank(gap),
        !gap.contains('\n'),
    ensures
        body_of(lines_of(header + gap.push('\n') + rest)) == lines_of(rest),
        srt_of(header + gap.push('\n') + rest) == trimmed(rendered(blocks_of(lines_of(rest)))),
{
    let blank_line = gap.push('\n');
    lemma_blank_line(gap);
    lemma_lines_of_two_texts(blank_line, rest, 0);
    lemma_lines_of_two_texts(header, blank_line + rest, 0);
    assert(header + blank_line + rest =~= header + (blank_line + rest));
    assert(lines_of(blank_line) =~= seq![lines_of(blank_line)[0]]);
    assert(lines_of(header + blank_line + rest) =~= lines_of(header) + seq![
        lines_of(blank_line)[0],
    ] + lines_of(rest));
    lemma_header_is_dropped(lines_of(header), lines_of(blank_line)[0], lines_of(rest));
}

/// The output is trimmed: where it is not empty, it starts and ends with a
/// visible character. So it does not start with the empty line that stands
/// before the first cue, and it does not end in a line feed.
pub proof fn lemma_output_is_trimmed(text: Seq<char>)
    ensures
        srt_of(text).len() > 0 ==> !is_white_space(srt_of(text)[0]) && !is_white_space(
            srt_of(text).last(),
        ),
        srt_of(text).len() > 0 ==> srt_of(text)[0] != '\n' && srt_of(text).last() != '\n',
{
    lemma_trimmed_ends(rendered(blocks_of(body_of(lines_of(text)))));
}

/// A conversion succeeds exactly when the patterns are accepted and no line
/// of the body is too long. Its text is then written from one block for
/// each line of the body, and the numbers of the cues among them are exactly
/// the numbers from 1 to the count of timing lines, in this order.
pub proof fn lemma_conversion_numbers_the_cues(text: Seq<char>)
    ensures
        conversion_of(text) is Ok <==> patterns_accepted() && convertible(text),
        conversion_of(text) matches Ok(srt) ==> {
            let body = body_of(lines_of(text));
            let blocks = blocks_of(body);
            &&& srt == trimmed(rendered(blocks))
            &&& blocks.len() == body.len()
            &&& cue_numbers(blocks).len() == timing_count(body)
            &&& cue_numbers(blocks) == Seq::new(timing_count(body), |k: int| (k + 1) as nat)
        },
{
    lemma_cues_are_numbered_in_order(body_of(lines_of(text)));
}

/// Two texts that differ only in their headers convert alike, and as the
/// text does that has an empty line in place of the header: nothing of a
/// header reaches the output, and no header decides whether the conversion
/// succeeds.
pub proof fn lemma_headers_do_not_matter(
    header: Seq<char>,
    gap: Seq<char>,
    other_header: Seq<char>,
    other_gap: Seq<char>,
    rest: Seq<char>,
)
    requires
        header.len() == 0 || header.last() == '\n',
        forall|i: int|
            0 <= i < lines_of(header).len() ==> !is_blank(#[trigger] lines_of(header)[i]),
        is_blank(gap),
        !gap.contains('\n'),
        other_header.len() == 0 || other_header.last() == '\n',
        forall|i: int|
            0 <= i < lines_of(other_header).len() ==> !is_blank(
                #[trigger] lines_of(other_header)[i],
            ),
        is_blank(other_gap),
        !other_gap.contains('\n'),
    ensures
        conversion_of(header + gap.push('\n') + rest) == conversion_of(
            other_header + other_gap.push('\n') + rest,
        ),
        conversion_of(header + gap.push('\n') + rest) == conversion_of(seq!['\n'] + rest),
{
    let nothing = Seq::<char>::empty();
    lemma_header_text_is_dropped(header, gap, rest);
    lemma_header_text_is_dropped(other_header, other_gap, rest);
    lemma_header_text_is_dropped(nothing, nothing, rest);
    assert(nothing + nothing.push('\n') + rest =~= seq!['\n'] + rest);
}

/// A header without a blank line has none after its last line is closed by
/// a line feed.
pub proof fn lemma_closed_header(header: Seq<char>)
    requires
        header.len() > 0,
        header.last() != '\n',
        forall|i: int|
            0 <= i < lines_of(header).len() ==> !is_blank(#[trigger] lines_of(header)[i]),
    ensures
        forall|i: int|
            0 <= i < lines_of(header.push('\n')).len() ==> !is_blank(
                #[trigger] lines_of(header.push('\n'))[i],
            ),
{
    assert forall|k: int| 0 <= k < lines_from(header, 0).len() implies !is_blank(
        #[trigger] lines_from(header, 0)[k],
    ) by {
        assert(lines_from(header, 0)[k] == lines_of(header)[k]);
    }
    lemma_closing_makes_no_blank_line(header, 0);
    assert forall|i: int| 0 <= i < lines_of(header.push('\n')).len() implies !is_blank(
        #[trigger] lines_of(header.push('\n'))[i],
    ) by {
        assert(lines_of(header.push('\n'))[i] == lines_from(header.push('\n'), 0)[i]);
    }
}

/// A header is cut off by the first empty line: two texts whose headers
/// hold no blank line, and which go on alike after the empty line that
/// follows the header, convert alike, and as the text does that starts with
/// the empty line.
pub proof fn lemma_header_before_an_empty_line(
    header: Seq<char>,
    other_header: Seq<char>,
    rest: Seq<char>,
)
    requires
        header.len() > 0,
        header.last() != '\n',
        forall|i: int|
            0 <= i < lines_of(header).len() ==> !is_blank(#[trigger] lines_of(header)[i]),
        other_header.len() > 0,
        other_header.last() != '\n',
        forall|i: int|
            0 <= i < lines_of(other_header).len() ==> !is_blank(
                #[trigger] lines_of(other_header)[i],
            ),
    ensures
        conversion_of(header + seq!['\n', '\n'] + rest) == conversion_of(
            other_header + seq!['\n', '\n'] + rest,
        ),
        conversion_of(header + seq!['\n', '\n'] + rest) == conversion_of(seq!['\n'] + rest),
{
    let nothing = Seq::<char>::empty();
    lemma_closed_header(header);
    lemma_closed_header(other_header);
    lemma_headers_do_not_matter(
        header.push('\n'),
        nothing,
        other_header.push('\n'),
        nothing,
        rest,
    );
    assert(header.push('\n') + nothing.push('\n') + rest =~= header + seq!['\n', '\n']
        + rest);
    assert(other_header.push('\n') + nothing.push('\n') + rest =~= other_header + seq![
        '\n',
        '\n',
    ] + rest);
}

/// A timing line whose first timestamp has hours is written as `regex`
/// leaves it after two replacements: of every match of `FULL` by
/// `FULL_TEMPLATE`, which names the four groups of the match in their order
/// and has a comma where the match has its dot, and of every match of
/// `MODIFIER` by nothing. Its tags are removed last.
pub proof fn lemma_full_timing_line(line: Seq<char>)
    ensures
        line_kind(line) == LineKind::Full ==> rewritten(line) == without_tags(
            regex_replace_all(
                MODIFIER@,
                regex_replace_all(FULL@, line, FULL_TEMPLATE@),
                NOTHING@,
            ),
        ),
        FULL_TEMPLATE@ == seq!['$', 'H', ':', '$', 'M', ':', '$', 'S', ',', '$', 'f'],
        NOTHING@ == Seq::<char>::empty(),
{
    reveal_strlit("$H:$M:$S,$f");
    reveal_strlit("");
    assert(FULL_TEMPLATE@ =~= seq!['$', 'H', ':', '$', 'M', ':', '$', 'S', ',', '$', 'f']);
    assert(NOTHING@ =~= Seq::<char>::empty());
}

/// A timing line whose first timestamp has no hours is written as `regex`
/// leaves it after two replacements: of every match of `SHORT` by
/// `SHORT_TEMPLATE`, which starts with `00:`, names the three groups of the
/// match in their order and has a comma where the match has its dot, and of
/// every match of `MODIFIER` by nothing. Its tags are removed last.
pub proof fn lemma_short_timing_line(line: Seq<char>)
    ensures
        line_kind(line) == LineKind::Short ==> rewritten(line) == without_tags(
            regex_replace_all(
                MODIFIER@,
                regex_replace_all(SHORT@, line, SHORT_TEMPLATE@),
                NOTHING@,
            ),
        ),
        SHORT_TEMPLATE@ == seq!['0', '0', ':', '$', 'M', ':', '$', 'S', ',', '$', 'f'],
{
    reveal_strlit("00:$M:$S,$f");
    assert(SHORT_TEMPLATE@ =~= seq!['0', '0', ':', '$', 'M', ':', '$', 'S', ',', '$', 'f']);
}

/// A line that is no timing line keeps its timestamps and cue settings: only
/// its tags are removed. Where it holds no `<`, it is written as it is, be
/// it text, a cue identifier or a timing line that is not well formed.
pub proof fn lemma_content_line(line: Seq<char>)
    ensures
        line_kind(line) == LineKind::Content ==> rewritten(line) == without_tags(line),
        line_kind(line) == LineKind::Content && !line.contains('<') ==> rewritten(line) == line,
{
}

} // verus!
