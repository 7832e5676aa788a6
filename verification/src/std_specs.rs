//! Contracts for the functions of std that the engine calls and for which
//! vstd has none. They are trusted, not proved.

use vstd::prelude::*;

verus! {

/// Whether `char::is_whitespace` holds of `c`: the character has the
/// Unicode property `White_Space`.
pub uninterp spec fn white_space(c: char) -> bool;

/// The string that `str::to_lowercase` returns for `s`.
pub uninterp spec fn lowercase(s: Seq<char>) -> Seq<char>;

/// `char::is_whitespace` of std. Trusted: the result depends on the
/// character alone, so it is given the name `white_space`.
pub assume_specification[ char::is_whitespace ](c: char) -> (b: bool)
    ensures
        b == white_space(c),
;

/// `str::to_lowercase` of std. Trusted: the result depends on the string
/// alone, so it is given the name `lowercase`.
pub assume_specification[ str::to_lowercase ](s: &str) -> (lower: String)
    ensures
        lower@ == lowercase(s@),
;

/// `String::push` of std appends one character. Trusted.
pub assume_specification[ String::push ](s: &mut String, c: char)
    ensures
        final(s)@ == old(s)@.push(c),
;

} // verus!
