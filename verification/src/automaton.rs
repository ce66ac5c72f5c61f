//! The decoder as an automaton of three states, and the proof that each of
//! its moves keeps it in step with the grammar.

use vstd::prelude::*;
use crate::error::DecodeError;
use crate::grammar::{decode, decode_from, hex_number, prefixed, scalar, MAX_ESCAPE_DIGITS};
use crate::grammar_lemmas::{
    lemma_hex_number_bound, lemma_hex_run_is, lemma_piece_done, lemma_piece_fails,
    lemma_pow16_values,
};
use crate::hex::{hex_digit_value, is_hex_digit};

verus! {

/// Where the decoder stands between two characters of a literal.
pub enum EscState {
    /// Between two pieces.
    Normal,
    /// After a backslash.
    Escape,
    /// After `\u` and some digits: the value of the digits so far, and how
    /// many more digits the escape may take.
    Unicode(u32, u32),
}

/// Where the piece began that the decoder is in at position `i`.
pub open spec fn piece_start(i: int, st: EscState) -> int {
    match st {
        EscState::Normal => i,
        EscState::Escape => i - 1,
        EscState::Unicode(_, num_left) => i - 2 - (MAX_ESCAPE_DIGITS - num_left),
    }
}

/// Whether the state `st` says what stands in `s` between the beginning of
/// the current piece and position `i`.
pub open spec fn state_fits(s: Seq<char>, i: int, st: EscState) -> bool {
    let start = piece_start(i, st);
    match st {
        EscState::Normal => true,
        EscState::Escape => 0 <= start && s[start] == '\\',
        EscState::Unicode(codepoint, num_left) => {
            &&& num_left <= MAX_ESCAPE_DIGITS
            &&& 0 <= start
            &&& s[start] == '\\'
            &&& s[start + 1] == 'u'
            &&& forall|k: int| start + 2 <= k < i ==> is_hex_digit(#[trigger] s[k])
            &&& codepoint == hex_number(s, start + 2, i)
        },
    }
}

/// Whether the decoder, at position `i` of `s` in state `st` with `out`
/// written, has so far done what the grammar asks: what `s` denotes is `out`
/// followed by what the pieces from the current one on denote.
pub open spec fn on_track(s: Seq<char>, i: int, out: Seq<char>, st: EscState) -> bool {
    &&& 0 <= i <= s.len()
    &&& state_fits(s, i, st)
    &&& decode(s) == prefixed(out, decode_from(s, piece_start(i, st)))
}

/// The decoder starts on track.
pub proof fn lemma_start(s: Seq<char>)
    ensures
        on_track(s, 0, Seq::empty(), EscState::Normal),
{
    match decode(s) {
        Ok(whole) => {
            assert(Seq::<char>::empty() + whole =~= whole);
        },
        Err(_) => {},
    }
}

/// Between two pieces, a character other than a backslash is written as it
/// is.
pub proof fn lemma_plain(s: Seq<char>, i: int, out: Seq<char>)
    requires
        on_track(s, i, out, EscState::Normal),
        i < s.len(),
        s[i] != '\\',
    ensures
        on_track(s, i + 1, out.push(s[i]), EscState::Normal),
{
    lemma_piece_done(s, i, out, seq![s[i]]);
    assert(out + seq![s[i]] =~= out.push(s[i]));
}

/// Between two pieces, a backslash opens an escape and writes nothing.
pub proof fn lemma_backslash(s: Seq<char>, i: int, out: Seq<char>)
    requires
        on_track(s, i, out, EscState::Normal),
        i < s.len(),
        s[i] == '\\',
    ensures
        on_track(s, i + 1, out, EscState::Escape),
{
}

/// After a backslash, a backslash or a quote is written as it is, and `n`
/// as a newline.
pub proof fn lemma_fixed_escape(s: Seq<char>, i: int, out: Seq<char>, c: char)
    requires
        on_track(s, i, out, EscState::Escape),
        i < s.len(),
        s[i] == '\\' && c == '\\' || s[i] == '"' && c == '"' || s[i] == 'n' && c == '\n',
    ensures
        on_track(s, i + 1, out.push(c), EscState::Normal),
{
    lemma_piece_done(s, i - 1, out, seq![c]);
    assert(out + seq![c] =~= out.push(c));
}

/// After a backslash, `u` opens a numeric escape with no digit read.
pub proof fn lemma_numeric_escape(s: Seq<char>, i: int, out: Seq<char>)
    requires
        on_track(s, i, out, EscState::Escape),
        i < s.len(),
        s[i] == 'u',
    ensures
        on_track(s, i + 1, out, EscState::Unicode(0, MAX_ESCAPE_DIGITS)),
{
}

/// After a backslash, any other character is an error of the literal.
pub proof fn lemma_invalid_escape(s: Seq<char>, i: int, out: Seq<char>)
    requires
        on_track(s, i, out, EscState::Escape),
        i < s.len(),
        s[i] != '\\',
        s[i] != '"',
        s[i] != 'n',
        s[i] != 'u',
    ensures
        decode(s) == Err::<Seq<char>, DecodeError>(DecodeError::InvalidEscape(s[i])),
{
    lemma_piece_fails(s, i - 1, out, DecodeError::InvalidEscape(s[i]));
}

/// In a numeric escape that may take more digits, a digit is taken into the
/// value, which stays below `0x1000000`.
pub proof fn lemma_digit(
    s: Seq<char>,
    i: int,
    out: Seq<char>,
    codepoint: u32,
    num_left: u32,
    digit: u32,
)
    requires
        on_track(s, i, out, EscState::Unicode(codepoint, num_left)),
        i < s.len(),
        num_left > 0,
        hex_digit_value(s[i]) == Some(digit as nat),
    ensures
        codepoint * 16 + digit < 0x100_0000,
        on_track(
            s,
            i + 1,
            out,
            EscState::Unicode((codepoint * 16 + digit) as u32, (num_left - 1) as u32),
        ),
{
    let start = piece_start(i, EscState::Unicode(codepoint, num_left));
    lemma_hex_number_bound(s, start + 2, i);
    lemma_pow16_values();
    assert(hex_number(s, start + 2, i + 1) == codepoint * 16 + digit);
}

/// The piece that a numeric escape makes once its digits have ended at
/// position `i`: because the text ends there, because six digits are read, or
/// because the character there is no digit.
pub proof fn lemma_digits_end(
    s: Seq<char>,
    i: int,
    out: Seq<char>,
    codepoint: u32,
    num_left: u32,
)
    requires
        on_track(s, i, out, EscState::Unicode(codepoint, num_left)),
        i == s.len() || num_left == 0 || !is_hex_digit(s[i]),
    ensures
        scalar(codepoint as nat) matches Err(e) ==> decode(s) == Err::<Seq<char>, DecodeError>(e),
        scalar(codepoint as nat) matches Ok(c) ==> (if i < s.len() {
            on_track(s, i + 1, out.push(c).push(s[i]), EscState::Normal)
        } else {
            decode(s) == Ok::<Seq<char>, DecodeError>(out.push(c))
        }),
{
    let start = piece_start(i, EscState::Unicode(codepoint, num_left));
    lemma_hex_run_is(s, start + 2, MAX_ESCAPE_DIGITS as nat, (i - start - 2) as nat);
    match scalar(codepoint as nat) {
        Err(e) => {
            lemma_piece_fails(s, start, out, e);
        },
        Ok(c) => {
            if i < s.len() {
                lemma_piece_done(s, start, out, seq![c, s[i]]);
                assert(out + seq![c, s[i]] =~= out.push(c).push(s[i]));
            } else {
                lemma_piece_done(s, start, out, seq![c]);
                assert(out + seq![c] =~= out.push(c));
                assert(out.push(c) + Seq::<char>::empty() =~= out.push(c));
            }
        },
    }
}

/// At the end of the text, between two pieces or after a last backslash,
/// what is written is what the text denotes.
pub proof fn lemma_end(s: Seq<char>, out: Seq<char>, st: EscState)
    requires
        on_track(s, s.len() as int, out, st),
        st is Normal || st is Escape,
    ensures
        decode(s) == Ok::<Seq<char>, DecodeError>(out),
{
    if st is Escape {
        lemma_piece_done(s, s.len() - 1, out, Seq::empty());
    }
    assert(out + Seq::<char>::empty() =~= out);
}

} // verus!
