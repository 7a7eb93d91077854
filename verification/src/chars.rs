//! Character-level operations of std that vstd gives no specification:
//! Unicode uppercasing, the Unicode alphanumeric class, and appending a
//! character to a string.

use vstd::prelude::*;

verus! {

/// The Unicode uppercase form of a piece of text: a fixed function of its
/// characters alone.
pub uninterp spec fn upper_of(s: Seq<char>) -> Seq<char>;

/// Whether a character is Unicode alphanumeric: a fixed property of the
/// character.
pub uninterp spec fn alnum_char(c: char) -> bool;

/// Relies on str::to_uppercase: the Unicode uppercase mapping, which is not
/// locale-dependent, so the result is a function of the characters alone.
pub assume_specification[ str::to_uppercase ](s: &str) -> (r: String)
    ensures
        r@ == upper_of(s@),
;

/// Relies on char::is_alphanumeric: membership in the Unicode alphanumeric
/// general categories, a fixed property of the character.
pub assume_specification[ char::is_alphanumeric ](c: char) -> (r: bool)
    ensures
        r == alnum_char(c),
;

/// Relies on String::push: appends the given character to the end.
pub assume_specification[ String::push ](s: &mut String, c: char)
    ensures
        final(s)@ == old(s)@.push(c),
;

} // verus!
