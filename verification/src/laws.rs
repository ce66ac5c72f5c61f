//! What holds of every literal.

use vstd::prelude::*;
use crate::error::DecodeError;
use crate::grammar::{
    decode, decode_from, decode_literal, escape_value, is_scalar_value, left_from, piece_len,
    piece_value, pieces_reach,
};
use crate::grammar_lemmas::{lemma_decode_plain, lemma_escape_value_bound, lemma_first_error};

verus! {

/// A text without a backslash denotes itself, unchanged.
pub proof fn law_plain_text(s: Seq<char>)
    requires
        !s.contains('\\'),
    ensures
        decode(s) == Ok::<Seq<char>, DecodeError>(s),
{
    lemma_decode_plain(s, 0);
    assert(s.subrange(0, s.len() as int) =~= s);
}

/// A text that holds neither a backslash nor a quote, put between quotes,
/// is a literal that denotes the text.
pub proof fn law_quoted_round_trip(text: Seq<char>)
    requires
        !text.contains('\\'),
        !text.contains('"'),
    ensures
        decode_literal(seq!['"'] + text + seq!['"']) == Ok::<Seq<char>, DecodeError>(text),
{
    let literal = seq!['"'] + text + seq!['"'];
    assert(literal.subrange(1, literal.len() - 1) =~= text);
    law_plain_text(text);
}

/// A backslash before a character other than a backslash, a quote, `n` and
/// `u` makes the text fail with that character as an invalid escape, where
/// the backslash begins a piece and the pieces before it are free of error.
pub proof fn law_invalid_escape(s: Seq<char>, i: int)
    requires
        pieces_reach(s, 0, i),
        0 <= i,
        i + 1 < s.len(),
        s[i] == '\\',
        s[i + 1] != '\\',
        s[i + 1] != '"',
        s[i + 1] != 'n',
        s[i + 1] != 'u',
    ensures
        decode(s) == Err::<Seq<char>, DecodeError>(DecodeError::InvalidEscape(s[i + 1])),
{
    lemma_first_error(s, 0, i, DecodeError::InvalidEscape(s[i + 1]));
}

/// A numeric escape whose value lies in the surrogate range or above
/// `0x10FFFF` makes the text fail with that value as an invalid code point,
/// where the escape begins a piece and the pieces before it are free of
/// error.
pub proof fn law_invalid_code_point(s: Seq<char>, i: int)
    requires
        pieces_reach(s, 0, i),
        0 <= i,
        i + 1 < s.len(),
        s[i] == '\\',
        s[i + 1] == 'u',
        0xD800 <= escape_value(s, i) <= 0xDFFF || escape_value(s, i) > 0x10FFFF,
    ensures
        escape_value(s, i) < 0x100_0000,
        decode(s) == Err::<Seq<char>, DecodeError>(
            DecodeError::InvalidCodePoint(escape_value(s, i) as u32),
        ),
{
    lemma_escape_value_bound(s, i);
    lemma_first_error(s, 0, i, DecodeError::InvalidCodePoint(escape_value(s, i) as u32));
}

/// A text fails only for a cause: where the text from `from` on denotes an
/// error, the pieces from there are free of error up to some piece, and that
/// piece is in this error. The position of that piece is returned.
pub proof fn law_error_has_cause(s: Seq<char>, from: int) -> (i: int)
    requires
        decode_from(s, from) is Err,
    ensures
        from <= i < s.len(),
        pieces_reach(s, from, i),
        piece_value(s, i) is Err,
        piece_value(s, i)->Err_0 == decode_from(s, from)->Err_0,
    decreases left_from(s, from),
{
    if piece_value(s, from) is Err {
        from
    } else {
        law_error_has_cause(s, from + piece_len(s, from))
    }
}

/// A piece is in error in two ways only: as a backslash before a character
/// that selects no escape, or as a numeric escape whose value is no Unicode
/// scalar value.
pub proof fn law_piece_errors(s: Seq<char>, i: int)
    requires
        0 <= i < s.len(),
    ensures
        piece_value(s, i) is Err <==> s[i] == '\\' && i + 1 < s.len() && (if s[i + 1] == 'u' {
            !is_scalar_value(escape_value(s, i))
        } else {
            s[i + 1] != '\\' && s[i + 1] != '"' && s[i + 1] != 'n'
        }),
{
}

} // verus!
