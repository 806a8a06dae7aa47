//! The blocks of a SubRip document and how they are written out.
use crate::convert::number::{decimal, push_decimal};
use vstd::prelude::*;

verus! {

/// One piece of the output, made from one line of the input.
#[derive(Debug, PartialEq, Eq)]
pub enum Block {
    /// A timing line, which opens a cue and carries the cue's number.
    Cue { number: usize, timing: String },
    /// Any other line.
    Text { text: String },
}

/// A block as a mathematical value.
pub enum BlockView {
    Cue { number: nat, timing: Seq<char> },
    Text { text: Seq<char> },
}

impl View for Block {
    type V = BlockView;

    open spec fn view(&self) -> BlockView {
        match *self {
            Block::Cue { number, timing } => BlockView::Cue {
                number: number as nat,
                timing: timing@,
            },
            Block::Text { text } => BlockView::Text { text: text@ },
        }
    }
}

impl DeepView for Block {
    type V = BlockView;

    open spec fn deep_view(&self) -> BlockView {
        self@
    }
}

/// The text of one block. A cue is written as an empty line, the line with
/// its number and the timing line; any other block as its one line. Every
/// line ends in a line feed.
pub open spec fn block_text(block: BlockView) -> Seq<char> {
    match block {
        BlockView::Cue { number, timing } => seq!['\n'] + decimal(number) + seq!['\n'] + timing
            + seq!['\n'],
        BlockView::Text { text } => text + seq!['\n'],
    }
}

/// The texts of the blocks, one after the other.
pub open spec fn rendered(blocks: Seq<BlockView>) -> Seq<char>
    decreases blocks.len(),
{
    if blocks.len() == 0 {
        Seq::empty()
    } else {
        rendered(blocks.drop_last()) + block_text(blocks.last())
    }
}

/// The numbers of the cues among the blocks, in the order of the blocks.
pub open spec fn cue_numbers(blocks: Seq<BlockView>) -> Seq<nat>
    decreases blocks.len(),
{
    if blocks.len() == 0 {
        Seq::empty()
    } else {
        match blocks.last() {
            BlockView::Cue { number, .. } => cue_numbers(blocks.drop_last()).push(number),
            BlockView::Text { .. } => cue_numbers(blocks.drop_last()),
        }
    }
}

/// Appends the text of `block` to `out`.
pub fn push_block(out: &mut String, block: &Block)
    ensures
        final(out)@ == old(out)@ + block_text(block@),
{
    match block {
        Block::Cue { number, timing } => {
            out.push('\n');
            push_decimal(out, *number);
            out.push('\n');
            out.append(timing.as_str());
            out.push('\n');
            assert(out@ =~= old(out)@ + block_text(block@));
        },
        Block::Text { text } => {
            out.append(text.as_str());
            out.push('\n');
            assert(out@ =~= old(out)@ + block_text(block@));
        },
    }
}

/// The text of all the blocks, in order.
pub fn render(blocks: &Vec<Block>) -> (out: String)
    ensures
        out@ == rendered(blocks.deep_view()),
{
    let mut out = String::new();
    let mut i: usize = 0;
    while i < blocks.len()
        invariant
            i <= blocks.len(),
            out@ == rendered(blocks.deep_view().take(i as int)),
        decreases blocks.len() - i,
    {
        push_block(&mut out, &blocks[i]);
        proof {
            let all = blocks.deep_view();
            assert(all.take(i + 1).drop_last() =~= all.take(i as int));
            assert(all.take(i + 1).last() == blocks[i as int]@);
        }
        i += 1;
    }
    assert(blocks.deep_view().take(i as int) =~= blocks.deep_view());
    out
}

} // verus!
