//! The two shapes that a word may have, and the test for them, which the
//! `regex` crate performs.

use regex::Regex;
use vstd::prelude::*;

use crate::text::{all_alphanumeric, all_digits, spec_is_letter};

verus! {

/// From the first character of the text to its last: a letter, then any
/// number of letters and digits.
pub const IDENTIFIER_PATTERN: &'static str = "\\A[a-zA-Z][a-zA-Z0-9]*\\z";

/// From the first character of the text to its last: one digit or more.
pub const INTEGER_PATTERN: &'static str = "\\A[0-9]+\\z";

/// `text` is a letter followed by letters and digits only.
pub open spec fn is_identifier(text: Seq<char>) -> bool {
    text.len() > 0 && spec_is_letter(text[0]) && all_alphanumeric(text)
}

/// `text` is made of digits only, and of one at least.
pub open spec fn is_integer(text: Seq<char>) -> bool {
    text.len() > 0 && all_digits(text)
}

/// Compiles `pattern` with `regex::Regex::new` and tests `text` against it
/// with `Regex::is_match`. That reports a match anywhere in the text; both
/// patterns of this module begin with `\A` and end with `\z`, which match at
/// the two ends of the text only, so a match is one of the whole text. The
/// contract speaks of these two patterns only, both of which compile. It
/// claims that the test against `IDENTIFIER_PATTERN` succeeds exactly when
/// the text is an ASCII letter followed by ASCII letters and digits, and the
/// test against `INTEGER_PATTERN` exactly when the text is one ASCII digit or
/// more and nothing else. Nothing of this is proved.
#[verifier::external_body]
pub(crate) fn pattern_matches(pattern: &str, text: &str) -> (found: bool)
    requires
        pattern@ == IDENTIFIER_PATTERN@ || pattern@ == INTEGER_PATTERN@,
    ensures
        pattern@ == IDENTIFIER_PATTERN@ ==> found == is_identifier(text@),
        pattern@ == INTEGER_PATTERN@ ==> found == is_integer(text@),
{
    Regex::new(pattern).unwrap().is_match(text)
}

/// No text is both an identifier and an integer: the first character decides.
pub proof fn lemma_shapes_exclude(text: Seq<char>)
    ensures
        !(is_identifier(text) && is_integer(text)),
{
}

} // verus!
