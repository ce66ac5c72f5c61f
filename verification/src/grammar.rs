//! What a literal denotes.
//!
//! The text between the quotes is a row of pieces, read from left to right.
//! A piece is a plain character, a backslash with the character that selects
//! a fixed escape, or a numeric escape: `\u`, up to six hexadecimal digits,
//! and the character that ends the digits, which stands for itself. The
//! literal denotes what its pieces stand for, one after the other, and
//! denotes nothing as soon as one piece is in error.

use vstd::prelude::*;
use crate::error::DecodeError;
use crate::hex::{hex_digit_value, is_hex_digit};

verus! {

/// The most digits that a numeric escape takes.
pub const MAX_ESCAPE_DIGITS: u32 = 6;

/// Whether `v` is a Unicode scalar value: a code point outside the surrogate
/// range `0xD800..=0xDFFF` and not above `0x10FFFF`.
pub open spec fn is_scalar_value(v: nat) -> bool {
    v <= 0xD7FF || 0xE000 <= v <= 0x10FFFF
}

/// The character with the number `v`, or the error for a `v` that no
/// character has.
pub open spec fn scalar(v: nat) -> Result<char, DecodeError> {
    if is_scalar_value(v) {
        Ok(v as char)
    } else {
        Err(DecodeError::InvalidCodePoint(v as u32))
    }
}

/// How many hexadecimal digits stand in `s` from position `from` on without
/// a gap, counting no more than `limit` of them.
pub open spec fn hex_run(s: Seq<char>, from: int, limit: nat) -> nat
    decreases limit,
{
    if limit == 0 || from < 0 || from >= s.len() || !is_hex_digit(s[from]) {
        0
    } else {
        1 + hex_run(s, from + 1, (limit - 1) as nat)
    }
}

/// The number that the hexadecimal digits `s[from..to]` write, most
/// significant digit first; zero where the range is empty.
pub open spec fn hex_number(s: Seq<char>, from: int, to: int) -> nat
    decreases to - from,
{
    if to <= from {
        0
    } else {
        hex_number(s, from, to - 1) * 16 + hex_digit_value(s[to - 1]).unwrap()
    }
}

/// Where the digits of the numeric escape that begins at `i` end: the
/// position after the last of them.
pub open spec fn escape_digits_end(s: Seq<char>, i: int) -> int {
    i + 2 + hex_run(s, i + 2, MAX_ESCAPE_DIGITS as nat)
}

/// The value of the numeric escape that begins at `i`: the number that its
/// digits write, zero where it has none.
pub open spec fn escape_value(s: Seq<char>, i: int) -> nat {
    hex_number(s, i + 2, escape_digits_end(s, i))
}

/// How many characters of `s` the piece that begins at `i` takes.
pub open spec fn piece_len(s: Seq<char>, i: int) -> nat
    recommends
        0 <= i < s.len(),
{
    if s[i] != '\\' || i + 1 >= s.len() {
        1
    } else if s[i + 1] != 'u' {
        2
    } else if escape_digits_end(s, i) < s.len() {
        (escape_digits_end(s, i) + 1 - i) as nat
    } else {
        (escape_digits_end(s, i) - i) as nat
    }
}

/// What the piece that begins at `i` stands for.
///
/// A plain character stands for itself. `\\`, `\"` and `\n` stand for a
/// backslash, a quote and a newline. A numeric escape stands for the
/// character with its value, followed by the character that ended its digits
/// if there is one. A backslash that is the last character stands for
/// nothing. A backslash before any other character is an error, and so is a
/// numeric escape whose value no character has.
pub open spec fn piece_value(s: Seq<char>, i: int) -> Result<Seq<char>, DecodeError>
    recommends
        0 <= i < s.len(),
{
    if s[i] != '\\' {
        Ok(seq![s[i]])
    } else if i + 1 >= s.len() {
        Ok(Seq::empty())
    } else if s[i + 1] == '\\' {
        Ok(seq!['\\'])
    } else if s[i + 1] == '"' {
        Ok(seq!['"'])
    } else if s[i + 1] == 'n' {
        Ok(seq!['\n'])
    } else if s[i + 1] == 'u' {
        match scalar(escape_value(s, i)) {
            Err(e) => Err(e),
            Ok(c) => if escape_digits_end(s, i) < s.len() {
                Ok(seq![c, s[escape_digits_end(s, i)]])
            } else {
                Ok(seq![c])
            },
        }
    } else {
        Err(DecodeError::InvalidEscape(s[i + 1]))
    }
}

/// `head` followed by what `rest` holds, or the error that `rest` is.
pub open spec fn prefixed(head: Seq<char>, rest: Result<Seq<char>, DecodeError>) -> Result<
    Seq<char>,
    DecodeError,
> {
    match rest {
        Ok(tail) => Ok(head + tail),
        Err(e) => Err(e),
    }
}

/// How many characters of `s` stand at position `i` and after it.
pub open spec fn left_from(s: Seq<char>, i: int) -> nat {
    if 0 <= i < s.len() {
        (s.len() - i) as nat
    } else {
        0
    }
}

/// What the pieces of `s` from position `i` on denote, where a piece begins
/// at `i`: the error of the first piece that is in error, else what the
/// pieces stand for, in their order.
pub open spec fn decode_from(s: Seq<char>, i: int) -> Result<Seq<char>, DecodeError>
    decreases left_from(s, i),
{
    if 0 <= i < s.len() {
        match piece_value(s, i) {
            Err(e) => Err(e),
            Ok(head) => prefixed(head, decode_from(s, i + piece_len(s, i))),
        }
    } else {
        Ok(Seq::empty())
    }
}

/// What the text `s` between the quotes of a literal denotes.
pub open spec fn decode(s: Seq<char>) -> Result<Seq<char>, DecodeError> {
    decode_from(s, 0)
}

/// What the literal `literal` denotes, its first and last character being
/// the quotes.
pub open spec fn decode_literal(literal: Seq<char>) -> Result<Seq<char>, DecodeError>
    recommends
        literal.len() >= 2,
{
    decode(literal.subrange(1, literal.len() - 1))
}

/// Whether the pieces of `s` that begin at `from` and after it are free of
/// error up to position `to`, and one of them ends there: a piece begins at
/// `to`, or `s` ends there.
pub open spec fn pieces_reach(s: Seq<char>, from: int, to: int) -> bool
    decreases left_from(s, from),
{
    if from == to {
        true
    } else if 0 <= from < s.len() && from < to {
        piece_value(s, from) is Ok && pieces_reach(s, from + piece_len(s, from), to)
    } else {
        false
    }
}

} // verus!
