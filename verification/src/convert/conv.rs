//! From WebVTT to SubRip.
use crate::convert::cue::{render, rendered, Block, BlockView};
use crate::convert::lines::{lines_of, split_lines};
use crate::convert::markup::{strip_tags, without_tags, MAX_STRIP_LEN};
use crate::convert::pattern::{
    compiled_from, regex_accepts, regex_is_match, regex_replace_all, replace_all,
};
use crate::convert::text::{blank, chars_of, is_blank, string_of, trim, trimmed};
use regex::Regex;
use vstd::prelude::*;

verus! {

/// A timestamp with hours, at the very start of a line.
pub const FULL_START: &'static str = r"^\d{2}:\d{2}:\d{2}\.\d{3}";

/// A timestamp with hours, anywhere in a line.
pub const FULL: &'static str = r"(?P<H>\d{2}):(?P<M>\d{2}):(?P<S>\d{2})\.(?P<f>\d{3})";

/// What a timestamp with hours becomes: a comma stands before the
/// milliseconds.
pub const FULL_TEMPLATE: &'static str = "$H:$M:$S,$f";

/// A timestamp without hours, at the very start of a line.
pub const SHORT_START: &'static str = r"^\d{2}:\d{2}\.\d{3}";

/// A timestamp without hours, anywhere in a line.
pub const SHORT: &'static str = r"(?P<M>\d{2}):(?P<S>\d{2})\.(?P<f>\d{3})";

/// What a timestamp without hours becomes: it gets the hours `00` and a
/// comma before the milliseconds.
pub const SHORT_TEMPLATE: &'static str = "00:$M:$S,$f";

/// A cue setting: a space, a name that starts with a letter, a colon and a
/// value that runs up to the next whitespace.
pub const MODIFIER: &'static str = r" [a-zA-Z]\w*:\S+";

/// What a cue setting becomes.
pub const NOTHING: &'static str = "";

/// The direction of a conversion.
#[derive(Debug, Clone, Copy, PartialEq, Eq, Structural)]
pub enum Direction {
    VTT2SRT,
    SRT2VTT,
}

/// Why a conversion gave no result.
#[derive(Debug, Clone, Copy, PartialEq, Eq, Structural)]
pub enum ConvError {
    /// The direction is not supported.
    Unsupported,
    /// `regex` refused one of the patterns.
    Pattern,
    /// A line is longer than `MAX_STRIP_LEN` characters when its tags are
    /// to be removed.
    LineTooLong,
}

/// What a line of the body is.
#[derive(Debug, Clone, Copy, PartialEq, Eq, Structural)]
pub enum LineKind {
    /// A timing line whose first timestamp has hours.
    Full,
    /// A timing line whose first timestamp has no hours.
    Short,
    /// Any other line.
    Content,
}

/// What a line is: it is judged by how it starts, and a timestamp with
/// hours is looked for first.
pub open spec fn line_kind(line: Seq<char>) -> LineKind {
    if regex_is_match(FULL_START@, line) {
        LineKind::Full
    } else if regex_is_match(SHORT_START@, line) {
        LineKind::Short
    } else {
        LineKind::Content
    }
}

/// Whether a line is a timing line.
pub open spec fn is_timing(line: Seq<char>) -> bool {
    line_kind(line) != LineKind::Content
}

/// A line with its timestamps rewritten, each kind of timing line by its own
/// pattern and template.
pub open spec fn restamped(line: Seq<char>) -> Seq<char> {
    match line_kind(line) {
        LineKind::Full => regex_replace_all(FULL@, line, FULL_TEMPLATE@),
        LineKind::Short => regex_replace_all(SHORT@, line, SHORT_TEMPLATE@),
        LineKind::Content => line,
    }
}

/// A line before its tags are removed: a timing line has its timestamps
/// rewritten and then its cue settings removed, any other line is as it was.
pub open spec fn cleaned(line: Seq<char>) -> Seq<char> {
    if is_timing(line) {
        regex_replace_all(MODIFIER@, restamped(line), NOTHING@)
    } else {
        line
    }
}

/// Whether the tags of a line can be removed.
pub open spec fn line_fits(line: Seq<char>) -> bool {
    cleaned(line).len() <= MAX_STRIP_LEN
}

/// Whether the tags of every line can be removed.
pub open spec fn all_fit(lines: Seq<Seq<char>>) -> bool {
    forall|i: int| 0 <= i < lines.len() ==> line_fits(#[trigger] lines[i])
}

/// A line as it stands in the output.
pub open spec fn rewritten(line: Seq<char>) -> Seq<char> {
    without_tags(cleaned(line))
}

/// The number of timing lines among `lines`.
pub open spec fn timing_count(lines: Seq<Seq<char>>) -> nat
    decreases lines.len(),
{
    if lines.len() == 0 {
        0
    } else if is_timing(lines.last()) {
        timing_count(lines.drop_last()) + 1
    } else {
        timing_count(lines.drop_last())
    }
}

/// The block made from a line, where `number` is the number of the cue that
/// the line opens if it is a timing line.
pub open spec fn block_for(line: Seq<char>, number: nat) -> BlockView {
    if is_timing(line) {
        BlockView::Cue { number, timing: rewritten(line) }
    } else {
        BlockView::Text { text: rewritten(line) }
    }
}

/// The blocks of the body lines: one for each line, and a timing line gets
/// the number of timing lines up to and including itself.
pub open spec fn blocks_of(lines: Seq<Seq<char>>) -> Seq<BlockView> {
    Seq::new(lines.len(), |i: int| block_for(lines[i], timing_count(lines.take(i)) + 1))
}

/// The lines after the first blank line. Where no line is blank, the whole
/// document is header and no line is left.
pub open spec fn body_of(lines: Seq<Seq<char>>) -> Seq<Seq<char>>
    decreases lines.len(),
{
    if lines.len() == 0 {
        lines
    } else if is_blank(lines[0]) {
        lines.drop_first()
    } else {
        body_of(lines.drop_first())
    }
}

/// The SubRip text for the lines of a WebVTT document.
pub open spec fn srt_of_lines(lines: Seq<Seq<char>>) -> Seq<char> {
    trimmed(rendered(blocks_of(body_of(lines))))
}

/// The SubRip text for a WebVTT text.
pub open spec fn srt_of(text: Seq<char>) -> Seq<char> {
    srt_of_lines(lines_of(text))
}

/// Whether a WebVTT text can be converted: no line of its body is too long.
pub open spec fn convertible(text: Seq<char>) -> bool {
    all_fit(body_of(lines_of(text)))
}

/// Leading non-blank lines do not change what the body is.
pub proof fn lemma_body_skips(lines: Seq<Seq<char>>, k: int)
    requires
        0 <= k <= lines.len(),
        forall|i: int| 0 <= i < k ==> !is_blank(#[trigger] lines[i]),
    ensures
        body_of(lines) == body_of(lines.skip(k)),
    decreases k,
{
    if k == 0 {
        assert(lines.skip(0) =~= lines);
    } else {
        let rest = lines.drop_first();
        assert forall|i: int| 0 <= i < k - 1 implies !is_blank(#[trigger] rest[i]) by {
            assert(rest[i] == lines[i + 1]);
        }
        lemma_body_skips(rest, k - 1);
        assert(rest.skip(k - 1) =~= lines.skip(k));
    }
}

/// The lines of a document without its header: the lines after the first
/// blank line.
pub fn remove_header(lines: Vec<String>) -> (body: Vec<String>)
    ensures
        body.deep_view() == body_of(lines.deep_view()),
{
    let ghost all = lines.deep_view();
    let mut rest = lines;
    let mut k: usize = 0;
    while k < rest.len()
        invariant
            k <= rest.len(),
            all == lines.deep_view(),
            rest.deep_view() == all,
            forall|i: int| 0 <= i < k ==> !is_blank(#[trigger] all[i]),
        decreases rest.len() - k,
    {
        if blank(rest[k].as_str()) {
            assert(is_blank(all[k as int]));
            let body = rest.split_off(k + 1);
            proof {
                lemma_body_skips(all, k as int);
                assert(all.skip(k as int)[0] == all[k as int]);
                assert(all.skip(k as int).drop_first() =~= all.skip(k + 1));
                assert(body.deep_view() =~= all.skip(k + 1));
            }
            return body;
        }
        assert(!is_blank(all[k as int]));
        k += 1;
    }
    proof {
        lemma_body_skips(all, k as int);
        assert(all.skip(k as int).len() == 0);
    }
    Vec::new()
}

/// Whether `regex` accepts each of the five patterns of a conversion.
pub open spec fn patterns_accepted() -> bool {
    &&& regex_accepts(FULL_START@)
    &&& regex_accepts(FULL@)
    &&& regex_accepts(SHORT_START@)
    &&& regex_accepts(SHORT@)
    &&& regex_accepts(MODIFIER@)
}

/// What a conversion of `text` gives. The patterns are compiled first, so
/// where they are refused the error is `ConvError::Pattern`, whatever the
/// text; a text with a line that is too long gives `ConvError::LineTooLong`;
/// any other text gives its SubRip text.
pub open spec fn conversion_of(text: Seq<char>) -> Result<Seq<char>, ConvError> {
    if !patterns_accepted() {
        Err(ConvError::Pattern)
    } else if !convertible(text) {
        Err(ConvError::LineTooLong)
    } else {
        Ok(srt_of(text))
    }
}

/// The regex for `pattern`, or `ConvError::Pattern` where `regex` refuses the
/// pattern.
fn compile(pattern: &str) -> (r: Result<Regex, ConvError>)
    ensures
        match r {
            Ok(re) => regex_accepts(pattern@) && compiled_from(re) == Some(pattern@),
            Err(e) => !regex_accepts(pattern@) && e == ConvError::Pattern,
        },
{
    match Regex::new(pattern) {
        Ok(re) => Ok(re),
        Err(_) => Err(ConvError::Pattern),
    }
}

/// The compiled patterns of a conversion. They are compiled once and can
/// serve any number of conversions.
pub struct Patterns {
    full_start: Regex,
    full: Regex,
    short_start: Regex,
    short: Regex,
    modifier: Regex,
}

impl Patterns {
    /// Each regex was compiled from the pattern that its field is named
    /// after.
    #[verifier::type_invariant]
    spec fn well_formed(&self) -> bool {
        &&& compiled_from(self.full_start) == Some(FULL_START@)
        &&& compiled_from(self.full) == Some(FULL@)
        &&& compiled_from(self.short_start) == Some(SHORT_START@)
        &&& compiled_from(self.short) == Some(SHORT@)
        &&& compiled_from(self.modifier) == Some(MODIFIER@)
    }

    /// Compiles the patterns. The only error is `ConvError::Pattern`, which
    /// comes exactly when `regex` refuses one of them.
    pub fn new() -> (r: Result<Patterns, ConvError>)
        ensures
            r is Ok <==> patterns_accepted(),
            r matches Err(e) ==> e == ConvError::Pattern,
    {
        Ok(
            Patterns {
                full_start: compile(FULL_START)?,
                full: compile(FULL)?,
                short_start: compile(SHORT_START)?,
                short: compile(SHORT)?,
                modifier: compile(MODIFIER)?,
            },
        )
    }

    /// What `line` is.
    pub fn classify(&self, line: &str) -> (kind: LineKind)
        ensures
            kind == line_kind(line@),
    {
        proof {
            use_type_invariant(self);
        }
        if self.full_start.is_match(line) {
            LineKind::Full
        } else if self.short_start.is_match(line) {
            LineKind::Short
        } else {
            LineKind::Content
        }
    }

    /// A timing line with its timestamps rewritten and its cue settings
    /// removed.
    pub fn clean_timing(&self, line: &str) -> (r: Option<String>)
        ensures
            match r {
                Some(text) => is_timing(line@) && text@ == cleaned(line@),
                None => !is_timing(line@),
            },
    {
        proof {
            use_type_invariant(self);
        }
        match self.classify(line) {
            LineKind::Full => {
                let stamped = replace_all(&self.full, line, FULL_TEMPLATE);
                Some(replace_all(&self.modifier, stamped.as_str(), NOTHING))
            },
            LineKind::Short => {
                let stamped = replace_all(&self.short, line, SHORT_TEMPLATE);
                Some(replace_all(&self.modifier, stamped.as_str(), NOTHING))
            },
            LineKind::Content => None,
        }
    }

    /// The block for one line of the body, where `number` is the number of
    /// the cue that the line opens if it is a timing line. The only error is
    /// `ConvError::LineTooLong`.
    pub fn block(&self, line: &str, number: usize) -> (r: Result<Block, ConvError>)
        ensures
            match r {
                Ok(block) => line_fits(line@) && block@ == block_for(line@, number as nat),
                Err(e) => e == ConvError::LineTooLong && !line_fits(line@),
            },
    {
        match self.clean_timing(line) {
            Some(text) => {
                if text.as_str().unicode_len() > MAX_STRIP_LEN {
                    return Err(ConvError::LineTooLong);
                }
                Ok(Block::Cue { number, timing: strip_tags(text.as_str()) })
            },
            None => {
                if line.unicode_len() > MAX_STRIP_LEN {
                    return Err(ConvError::LineTooLong);
                }
                Ok(Block::Text { text: strip_tags(line) })
            },
        }
    }

    /// The blocks for the lines of a body. The only error is
    /// `ConvError::LineTooLong`, when some line is too long.
    pub fn blocks(&self, lines: &Vec<String>) -> (r: Result<Vec<Block>, ConvError>)
        ensures
            match r {
                Ok(blocks) => all_fit(lines.deep_view()) && blocks.deep_view() == blocks_of(
                    lines.deep_view(),
                ),
                Err(e) => e == ConvError::LineTooLong && !all_fit(lines.deep_view()),
            },
    {
        let ghost all = lines.deep_view();
        let mut blocks: Vec<Block> = Vec::new();
        let mut cues: usize = 0;
        let mut i: usize = 0;
        while i < lines.len()
            invariant
                i <= lines.len(),
                all == lines.deep_view(),
                cues == timing_count(all.take(i as int)),
                cues <= i,
                blocks.len() == i,
                forall|j: int| 0 <= j < i ==> line_fits(#[trigger] all[j]),
                forall|j: int|
                    0 <= j < i ==> (#[trigger] blocks[j])@ == block_for(
                        all[j],
                        timing_count(all.take(j)) + 1,
                    ),
            decreases lines.len() - i,
        {
            let block = match self.block(lines[i].as_str(), cues + 1) {
                Ok(block) => block,
                Err(e) => {
                    assert(!line_fits(all[i as int]));
                    return Err(e);
                },
            };
            proof {
                assert(all.take(i + 1).drop_last() =~= all.take(i as int));
                assert(all.take(i + 1).last() == all[i as int]);
            }
            if let Block::Cue { .. } = block {
                cues += 1;
            }
            blocks.push(block);
            i += 1;
        }
        proof {
            assert(all.take(i as int) =~= all);
            assert(blocks.deep_view() =~= blocks_of(all));
        }
        Ok(blocks)
    }

    /// The SubRip text for a WebVTT text. The only error is
    /// `ConvError::LineTooLong`, when some line of the body is too long.
    pub fn vtt_to_srt(&self, text: &str) -> (r: Result<String, ConvError>)
        ensures
            match r {
                Ok(srt) => convertible(text@) && srt@ == srt_of(text@),
                Err(e) => e == ConvError::LineTooLong && !convertible(text@),
            },
    {
        let body = remove_header(split_lines(text));
        match self.blocks(&body) {
            Ok(blocks) => {
                let out = render(&blocks);
                Ok(trim(out.as_str()))
            },
            Err(e) => Err(e),
        }
    }
}

/// The SubRip text for a WebVTT text: what `conversion_of` says. The error
/// is `ConvError::Pattern` exactly when `regex` refuses one of the patterns,
/// and `ConvError::LineTooLong` exactly when the patterns are accepted and
/// some line of the body is too long; on every other text the conversion
/// succeeds.
pub fn vtt2srt(text: &str) -> (r: Result<String, ConvError>)
    ensures
        match r {
            Ok(srt) => conversion_of(text@) == Ok::<Seq<char>, ConvError>(srt@),
            Err(e) => conversion_of(text@) == Err::<Seq<char>, ConvError>(e),
        },
{
    match Patterns::new() {
        Ok(patterns) => patterns.vtt_to_srt(text),
        Err(e) => Err(e),
    }
}

/// Converts `text` in the direction `direct`. Only `Direction::VTT2SRT` is
/// supported, and gives what `vtt2srt` gives: the other direction gives
/// `ConvError::Unsupported`, always and at once.
pub fn convert(text: &str, direct: Direction) -> (r: Result<String, ConvError>)
    ensures
        match direct {
            Direction::SRT2VTT => r == Err::<String, ConvError>(ConvError::Unsupported),
            Direction::VTT2SRT => match r {
                Ok(srt) => conversion_of(text@) == Ok::<Seq<char>, ConvError>(srt@),
                Err(e) => conversion_of(text@) == Err::<Seq<char>, ConvError>(e),
            },
        },
{
    match direct {
        Direction::VTT2SRT => vtt2srt(text),
        Direction::SRT2VTT => Err(ConvError::Unsupported),
    }
}

/// Whether a file name ends in `.vtt`.
pub open spec fn is_vtt_name(file: Seq<char>) -> bool {
    file.len() >= 4 && file.subrange(file.len() - 4, file.len() as int) == seq!['.', 'v', 't', 't']
}

/// The name of the SubRip file that belongs to a WebVTT file: `.srt` stands
/// in place of `.vtt`.
pub open spec fn srt_name(file: Seq<char>) -> Seq<char>
    recommends
        is_vtt_name(file),
{
    file.subrange(0, file.len() - 4) + seq!['.', 's', 'r', 't']
}

/// The name of the file that the conversion of `file` is written to, or
/// `None` where the name does not end in `.vtt`.
pub fn out_path(file: &str) -> (r: Option<String>)
    ensures
        match r {
            Some(path) => is_vtt_name(file@) && path@ == srt_name(file@),
            None => !is_vtt_name(file@),
        },
{
    let v = chars_of(file);
    let n: usize = v.len();
    if n < 4 {
        return None;
    }
    let ghost suffix = file@.subrange(n - 4, n as int);
    proof {
        assert(suffix[0] == v@[n - 4]);
        assert(suffix[1] == v@[n - 3]);
        assert(suffix[2] == v@[n - 2]);
        assert(suffix[3] == v@[n - 1]);
    }
    if v[n - 4] == '.' && v[n - 3] == 'v' && v[n - 2] == 't' && v[n - 1] == 't' {
        let mut path = string_of(&v, 0, n - 4);
        path.push('.');
        path.push('s');
        path.push('r');
        path.push('t');
        proof {
            assert(suffix =~= seq!['.', 'v', 't', 't']);
            assert(path@ =~= srt_name(file@));
        }
        Some(path)
    } else {
        None
    }
}

} // verus!
