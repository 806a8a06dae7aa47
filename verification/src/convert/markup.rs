//! Markup tags, as `voca_rs` removes them.
use vstd::prelude::*;

verus! {

/// The longest text, in characters, that is handed to `strip_tags`.
pub const MAX_STRIP_LEN: usize = 0x7fff_ffff;

/// `text` without its markup tags, as `voca_rs::strip::strip_tags` leaves it.
pub uninterp spec fn tags_stripped(text: Seq<char>) -> Seq<char>;

/// `text` without its markup tags: a text without `<` has none and stays as
/// it is.
pub open spec fn without_tags(text: Seq<char>) -> Seq<char> {
    if text.contains('<') {
        tags_stripped(text)
    } else {
        text
    }
}

/// `voca_rs::strip::strip_tags` walks the text once and keeps what stands
/// outside of tags; what it returns depends on the text alone. Only a `<`
/// makes it stop copying, so a text without `<` comes back as it is. It
/// counts nested `<` in a 32-bit signed integer, so longer texts are kept
/// away from it.
#[verifier::external_body]
pub(crate) fn strip_tags(text: &str) -> (r: String)
    requires
        text@.len() <= MAX_STRIP_LEN,
    ensures
        r@ == tags_stripped(text@),
        !text@.contains('<') ==> r@ == text@,
{
    voca_rs::strip::strip_tags(text)
}

} // verus!
