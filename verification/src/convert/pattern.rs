//! Regular expressions, as the `regex` crate provides them.
//!
//! What a search or a replacement yields is decided by `regex` alone. This
//! file gives those results names, so that the rest of the library can say
//! exactly which searches and replacements make up a conversion.
use regex::Regex;
use vstd::prelude::*;

verus! {

/// `regex::Regex`, a compiled regular expression. Nothing of its inside is
/// known here.
#[verifier::external_type_specification]
#[verifier::external_body]
pub struct ExRegex(regex::Regex);

/// `regex::Error`, the reason why a pattern was refused. Nothing of its
/// inside is known here.
#[verifier::external_type_specification]
#[verifier::external_body]
pub struct ExRegexError(regex::Error);

/// The pattern that a compiled regex was made from: `Some(p)` for a regex
/// that `Regex::new(p)` returned, `None` for one that was configured in any
/// other way.
pub uninterp spec fn compiled_from(re: Regex) -> Option<Seq<char>>;

/// Whether `Regex::new` accepts `pattern`, which it decides by the pattern
/// alone.
pub uninterp spec fn regex_accepts(pattern: Seq<char>) -> bool;

/// Whether the regex compiled from `pattern` by `Regex::new` finds a match
/// anywhere in `haystack`.
pub uninterp spec fn regex_is_match(pattern: Seq<char>, haystack: Seq<char>) -> bool;

/// `haystack` after the regex compiled from `pattern` by `Regex::new` has
/// replaced each of its matches, from left to right and without overlap, by
/// the expansion of `template`.
pub uninterp spec fn regex_replace_all(
    pattern: Seq<char>,
    haystack: Seq<char>,
    template: Seq<char>,
) -> Seq<char>;

/// `Regex::new` either refuses the pattern or hands back a regex compiled
/// from exactly this pattern, with the default options. Which of the two
/// happens depends on the pattern alone; which patterns it accepts is named,
/// not spelled out.
pub assume_specification[ Regex::new ](re: &str) -> (r: Result<Regex, regex::Error>)
    ensures
        r is Ok <==> regex_accepts(re@),
        r matches Ok(compiled) ==> compiled_from(compiled) == Some(re@),
;

/// `Regex::is_match` searches the whole haystack. For a regex that came from
/// `Regex::new` the answer depends on the pattern and the haystack alone.
pub assume_specification[ Regex::is_match ](re: &Regex, haystack: &str) -> (b: bool)
    ensures
        compiled_from(*re) matches Some(pattern) ==> b == regex_is_match(pattern, haystack@),
;

/// `Regex::replace_all` with a text as the replacement, in which `$name`
/// stands for a capture group. For a regex that came from `Regex::new` the
/// new text depends on the pattern, the haystack and the template alone.
#[verifier::external_body]
pub(crate) fn replace_all(re: &Regex, haystack: &str, template: &str) -> (r: String)
    ensures
        compiled_from(*re) matches Some(pattern) ==> r@ == regex_replace_all(
            pattern,
            haystack@,
            template@,
        ),
{
    re.replace_all(haystack, template).into_owned()
}

} // verus!
