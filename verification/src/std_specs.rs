//! Contracts for the functions of the standard library that the decoder calls
//! and that `vstd` does not describe. They are believed, not proved.

use vstd::prelude::*;

verus! {

/// `char::from_u32` gives the character with the number `i` where `i` is a
/// Unicode scalar value, that is outside the surrogate range and at most
/// `0x10FFFF`, and `None` for every other `i`.
pub assume_specification[ char::from_u32 ](i: u32) -> (r: Option<char>)
    ensures
        (i <= 0xD7FF || 0xE000 <= i <= 0x10FFFF) ==> r == Some(i as char),
        !(i <= 0xD7FF || 0xE000 <= i <= 0x10FFFF) ==> r is None,
;

/// `String::push` appends `ch` to the end of the string and leaves what was
/// there before as it was.
pub assume_specification[ String::push ](s: &mut String, ch: char)
    ensures
        final(s)@ == old(s)@.push(ch),
;

} // verus!
