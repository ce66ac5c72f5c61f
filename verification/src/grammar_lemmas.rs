//! Facts about the grammar of literals that the decoder's proof rests on.

use vstd::prelude::*;
use crate::error::DecodeError;
use crate::grammar::{
    decode, decode_from, escape_digits_end, escape_value, hex_number, hex_run, left_from,
    piece_len, piece_value, pieces_reach, prefixed, MAX_ESCAPE_DIGITS,
};
use crate::hex::is_hex_digit;

verus! {

/// Sixteen to the power of `n`.
pub open spec fn pow16(n: nat) -> nat
    decreases n,
{
    if n == 0 {
        1
    } else {
        16 * pow16((n - 1) as nat)
    }
}

/// The powers of sixteen that bound the value of a numeric escape.
pub proof fn lemma_pow16_values()
    ensures
        pow16(0) == 0x1,
        pow16(1) == 0x10,
        pow16(2) == 0x100,
        pow16(3) == 0x1000,
        pow16(4) == 0x1_0000,
        pow16(5) == 0x10_0000,
        pow16(6) == 0x100_0000,
{
    reveal_with_fuel(pow16, 7);
}

/// A run of digits is no longer than its limit, stays inside the text, holds
/// digits only, and ends where the limit is reached, the text ends or a
/// character is no digit.
pub proof fn lemma_hex_run_bounds(s: Seq<char>, from: int, limit: nat)
    requires
        0 <= from <= s.len(),
    ensures
        hex_run(s, from, limit) <= limit,
        from + hex_run(s, from, limit) <= s.len(),
        forall|k: int| from <= k < from + hex_run(s, from, limit) ==> is_hex_digit(#[trigger] s[k]),
        hex_run(s, from, limit) == limit || from + hex_run(s, from, limit) == s.len()
            || !is_hex_digit(s[from + hex_run(s, from, limit)]),
    decreases limit,
{
    if limit == 0 || from >= s.len() || !is_hex_digit(s[from]) {
    } else {
        lemma_hex_run_bounds(s, from + 1, (limit - 1) as nat);
    }
}

/// A run of `n` digits that ends where the limit is reached, the text ends or
/// a character is no digit is the run that `hex_run` counts.
pub proof fn lemma_hex_run_is(s: Seq<char>, from: int, limit: nat, n: nat)
    requires
        0 <= from,
        from + n <= s.len(),
        n <= limit,
        forall|k: int| from <= k < from + n ==> is_hex_digit(#[trigger] s[k]),
        n == limit || from + n == s.len() || !is_hex_digit(s[from + n]),
    ensures
        hex_run(s, from, limit) == n,
    decreases n,
{
    if n == 0 {
    } else {
        assert(is_hex_digit(s[from]));
        lemma_hex_run_is(s, from + 1, (limit - 1) as nat, (n - 1) as nat);
    }
}

/// A number of `n` hexadecimal digits is below the `n`-th power of sixteen.
pub proof fn lemma_hex_number_bound(s: Seq<char>, from: int, to: int)
    requires
        0 <= from <= to <= s.len(),
        forall|k: int| from <= k < to ==> is_hex_digit(#[trigger] s[k]),
    ensures
        hex_number(s, from, to) < pow16((to - from) as nat),
    decreases to - from,
{
    if to > from {
        lemma_hex_number_bound(s, from, to - 1);
        assert(is_hex_digit(s[to - 1]));
    }
}

/// The value of a numeric escape is below `0x1000000`, so it fits in 32 bits.
pub proof fn lemma_escape_value_bound(s: Seq<char>, i: int)
    requires
        0 <= i,
        i + 2 <= s.len(),
    ensures
        escape_value(s, i) < 0x100_0000,
        i + 2 <= escape_digits_end(s, i) <= s.len(),
{
    let n = hex_run(s, i + 2, MAX_ESCAPE_DIGITS as nat);
    lemma_hex_run_bounds(s, i + 2, MAX_ESCAPE_DIGITS as nat);
    lemma_hex_number_bound(s, i + 2, i + 2 + n);
    lemma_pow16_values();
}

/// Putting `a` and then `b` before a result is putting `a + b` before it.
pub proof fn lemma_prefixed_twice(a: Seq<char>, b: Seq<char>, rest: Result<Seq<char>, DecodeError>)
    ensures
        prefixed(a, prefixed(b, rest)) == prefixed(a + b, rest),
{
    match rest {
        Ok(tail) => {
            assert(a + (b + tail) =~= (a + b) + tail);
        },
        Err(_) => {},
    }
}

/// Where the text up to a piece has given `out` and the piece stands for
/// `head`, the text up to the next piece has given `out + head`.
pub proof fn lemma_piece_done(s: Seq<char>, start: int, out: Seq<char>, head: Seq<char>)
    requires
        0 <= start < s.len(),
        decode(s) == prefixed(out, decode_from(s, start)),
        piece_value(s, start) == Ok::<Seq<char>, DecodeError>(head),
    ensures
        decode(s) == prefixed(out + head, decode_from(s, start + piece_len(s, start))),
{
    lemma_prefixed_twice(out, head, decode_from(s, start + piece_len(s, start)));
}

/// Where the text up to a piece is free of error and the piece is in error,
/// the text denotes that error.
pub proof fn lemma_piece_fails(s: Seq<char>, start: int, out: Seq<char>, e: DecodeError)
    requires
        0 <= start < s.len(),
        decode(s) == prefixed(out, decode_from(s, start)),
        piece_value(s, start) == Err::<Seq<char>, DecodeError>(e),
    ensures
        decode(s) == Err::<Seq<char>, DecodeError>(e),
{
}

/// A piece stands for no more characters than it takes, so a text denotes no
/// more characters than it has.
pub proof fn lemma_decode_len(s: Seq<char>, i: int)
    ensures
        decode_from(s, i) matches Ok(t) ==> t.len() <= left_from(s, i),
    decreases left_from(s, i),
{
    if 0 <= i < s.len() {
        if s[i] == '\\' && i + 1 < s.len() && s[i + 1] == 'u' {
            lemma_escape_value_bound(s, i);
        }
        lemma_decode_len(s, i + piece_len(s, i));
    }
}

/// From a position after which no backslash stands, the text denotes itself.
pub proof fn lemma_decode_plain(s: Seq<char>, i: int)
    requires
        0 <= i <= s.len(),
        forall|k: int| i <= k < s.len() ==> s[k] != '\\',
    ensures
        decode_from(s, i) == Ok::<Seq<char>, DecodeError>(s.subrange(i, s.len() as int)),
    decreases s.len() - i,
{
    if i < s.len() {
        lemma_decode_plain(s, i + 1);
        assert(seq![s[i]] + s.subrange(i + 1, s.len() as int) =~= s.subrange(i, s.len() as int));
    } else {
        assert(s.subrange(i, s.len() as int) =~= Seq::<char>::empty());
    }
}

/// The first piece in error decides: where the pieces before position `i`
/// are free of error and the piece at `i` is in error, the text from `from`
/// on denotes that error.
pub proof fn lemma_first_error(s: Seq<char>, from: int, i: int, e: DecodeError)
    requires
        pieces_reach(s, from, i),
        0 <= i < s.len(),
        piece_value(s, i) == Err::<Seq<char>, DecodeError>(e),
    ensures
        decode_from(s, from) == Err::<Seq<char>, DecodeError>(e),
    decreases left_from(s, from),
{
    if from != i {
        lemma_first_error(s, from + piece_len(s, from), i, e);
    }
}

} // verus!
