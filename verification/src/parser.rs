//! Building blocks for a parser: from the text of a literal to its value.

use vstd::prelude::*;
use crate::automaton::{
    lemma_backslash, lemma_digit, lemma_digits_end, lemma_end, lemma_fixed_escape,
    lemma_invalid_escape, lemma_numeric_escape, lemma_plain, lemma_start, on_track, EscState,
};
use crate::error::DecodeError;
use crate::grammar::{decode, decode_literal, scalar, MAX_ESCAPE_DIGITS};
use crate::grammar_lemmas::{lemma_decode_len, lemma_decode_plain};
use crate::hex::hex_digit;

verus! {

/// A decoded string seen as its characters, an error as itself.
pub open spec fn decoded(res: Result<String, DecodeError>) -> Result<Seq<char>, DecodeError> {
    match res {
        Ok(string) => Ok(string@),
        Err(e) => Err(e),
    }
}

/// Strips the three-character fence from each end of a raw string literal.
/// What stands between the fences is returned as written: its indentation is
/// kept.
pub fn unescape_raw_string_literal(s: &str) -> (res: String)
    requires
        s@.len() >= 6,
    ensures
        res@ == s@.subrange(3, s@.len() - 3),
{
    let n: usize = s.unicode_len();
    s.substring_char(3, n - 3).to_owned()
}

/// The character with the number `codepoint`, or the error that says that
/// there is none.
pub fn char_from_codepoint(codepoint: u32) -> (res: Result<char, DecodeError>)
    ensures
        res == scalar(codepoint as nat),
{
    match char::from_u32(codepoint) {
        Some(c) => Ok(c),
        None => Err(DecodeError::InvalidCodePoint(codepoint)),
    }
}

/// Turns a string literal into the string it represents: `"foo\"bar"`, with
/// its quotes, becomes `foo"bar`.
///
/// The first and the last character of `s` are taken to be the quotes and
/// are left out. Between them `\\`, `\"` and `\n` stand for a backslash, a
/// quote and a newline, and `\u` with up to six hexadecimal digits for the
/// character with that number; the character that ends the digits stands
/// for itself. A backslash before any other character, or a number that no
/// character has, is an error, and the first error in the literal is the
/// one returned. A backslash that stands directly before the closing quote
/// is left out with it.
///
/// The result is what the grammar says the literal denotes. A string that
/// comes back has no more characters than stand between the quotes, and a
/// literal without a backslash gives what stands between its quotes.
pub fn unescape_string_literal(s: &str) -> (res: Result<String, DecodeError>)
    requires
        s@.len() >= 2,
    ensures
        decoded(res) == decode_literal(s@),
        res matches Ok(string) ==> string@.len() <= s@.len() - 2,
        !s@.subrange(1, s@.len() - 1).contains('\\') ==> decoded(res) == Ok::<
            Seq<char>,
            DecodeError,
        >(s@.subrange(1, s@.len() - 1)),
{
    let n: usize = s.unicode_len();
    let inner = s.substring_char(1, n - 1);
    let mut string = String::new();
    let mut st = EscState::Normal;

    proof {
        lemma_start(inner@);
        lemma_decode_len(inner@, 0);
        if !inner@.contains('\\') {
            lemma_decode_plain(inner@, 0);
            assert(inner@.subrange(0, inner@.len() as int) =~= inner@);
        }
    }

    for ch in it: inner.chars()
        invariant
            s@.len() >= 2,
            inner@ == s@.subrange(1, s@.len() - 1),
            decode(inner@) is Err ==> inner@.contains('\\'),
            it.seq() == inner@,
            on_track(inner@, it.index(), string@, st),
    {
        let ghost i: int = it.index();
        let ghost out = string@;
        assert(ch == inner@[i]);
        match st {
            EscState::Normal => {
                if ch == '\\' {
                    st = EscState::Escape;
                    proof {
                        lemma_backslash(inner@, i, out);
                    }
                } else {
                    string.push(ch);
                    proof {
                        lemma_plain(inner@, i, out);
                    }
                }
            },
            EscState::Escape => {
                if ch == '\\' || ch == '"' || ch == 'n' {
                    let c = if ch == 'n' {
                        '\n'
                    } else {
                        ch
                    };
                    string.push(c);
                    st = EscState::Normal;
                    proof {
                        lemma_fixed_escape(inner@, i, out, c);
                    }
                } else if ch == 'u' {
                    st = EscState::Unicode(0, MAX_ESCAPE_DIGITS);
                    proof {
                        lemma_numeric_escape(inner@, i, out);
                    }
                } else {
                    proof {
                        lemma_invalid_escape(inner@, i, out);
                    }
                    return Err(DecodeError::InvalidEscape(ch));
                }
            },
            EscState::Unicode(codepoint, num_left) => {
                let digit = hex_digit(ch);
                if digit.is_some() && num_left > 0 {
                    proof {
                        lemma_digit(inner@, i, out, codepoint, num_left, digit.unwrap());
                    }
                    st = EscState::Unicode(codepoint * 16 + digit.unwrap(), num_left - 1);
                } else {
                    proof {
                        lemma_digits_end(inner@, i, out, codepoint, num_left);
                    }
                    match char_from_codepoint(codepoint) {
                        Ok(c) => {
                            string.push(c);
                            string.push(ch);
                            st = EscState::Normal;
                        },
                        Err(e) => {
                            return Err(e);
                        },
                    }
                }
            },
        }
    }

    match st {
        EscState::Unicode(codepoint, num_left) => {
            proof {
                lemma_digits_end(inner@, inner@.len() as int, string@, codepoint, num_left);
            }
            match char_from_codepoint(codepoint) {
                Ok(c) => {
                    string.push(c);
                },
                Err(e) => {
                    return Err(e);
                },
            }
        },
        _ => {
            proof {
                lemma_end(inner@, string@, st);
            }
        },
    }
    Ok(string)
}

} // verus!
