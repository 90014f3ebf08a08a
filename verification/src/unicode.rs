//! Unicode case mapping and character classes, taken from `std`. Their
//! tables take pages to state, so they are named; on ASCII text the
//! contracts state them exactly.
use vstd::prelude::*;

use crate::text::{ascii_lower, ascii_upper_char, is_ascii_alnum, is_ascii_char, is_ascii_text};

verus! {

/// The name for `str::to_lowercase`.
pub uninterp spec fn unicode_lower_of(s: Seq<char>) -> Seq<char>;

/// The name for the characters of `char::to_uppercase`.
pub uninterp spec fn unicode_upper_char_of(c: char) -> Seq<char>;

/// The name for `char::is_alphanumeric`.
pub uninterp spec fn unicode_alnum_of(c: char) -> bool;

/// Lower-cases `s` (`str::to_lowercase`).
///
/// Trusted: calls `str::to_lowercase`. On ASCII text it lower-cases exactly
/// the letters `A`-`Z`, as its documentation and the Unicode tables give.
#[verifier::external_body]
pub(crate) fn to_lowercase(s: &str) -> (r: String)
    ensures
        r@ == unicode_lower_of(s@),
        is_ascii_text(s@) ==> r@ == ascii_lower(s@),
{
    s.to_lowercase()
}

/// The upper-case form of `c` (`char::to_uppercase`), as a text.
///
/// Trusted: calls `char::to_uppercase`. For an ASCII character it is the
/// single ASCII upper-case character.
#[verifier::external_body]
pub(crate) fn char_to_uppercase(c: char) -> (r: String)
    ensures
        r@ == unicode_upper_char_of(c),
        is_ascii_char(c) ==> r@ == seq![ascii_upper_char(c)],
{
    c.to_uppercase().collect::<String>()
}

/// Whether `c` is alphabetic or numeric (`char::is_alphanumeric`).
///
/// Trusted: calls `char::is_alphanumeric`. For an ASCII character it holds
/// exactly of letters and digits.
#[verifier::external_body]
pub(crate) fn char_is_alphanumeric(c: char) -> (r: bool)
    ensures
        r == unicode_alnum_of(c),
        is_ascii_char(c) ==> (r <==> is_ascii_alnum(c)),
{
    c.is_alphanumeric()
}

} // verus!
