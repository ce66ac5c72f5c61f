//! Hexadecimal digits: what a digit character is worth, and how a number is
//! written in upper-case digits.

use vstd::prelude::*;

verus! {

/// The value of `c` read as a hexadecimal digit, in either case; `None` where
/// `c` is no such digit.
pub open spec fn hex_digit_value(c: char) -> Option<nat> {
    if '0' <= c <= '9' {
        Some((c as nat - '0' as nat) as nat)
    } else if 'a' <= c <= 'f' {
        Some((c as nat - 'a' as nat + 10) as nat)
    } else if 'A' <= c <= 'F' {
        Some((c as nat - 'A' as nat + 10) as nat)
    } else {
        None
    }
}

/// Whether `c` is one of `0`-`9`, `a`-`f`, `A`-`F`.
pub open spec fn is_hex_digit(c: char) -> bool {
    hex_digit_value(c) is Some
}

/// The upper-case digit that stands for `d`, for `d` below 16.
pub open spec fn upper_hex_digit(d: nat) -> char
    recommends
        d < 16,
{
    if d < 10 {
        ('0' as nat + d) as char
    } else {
        ('A' as nat + d - 10) as char
    }
}

/// `n` written in base 16 with upper-case digits and no leading zeros; zero
/// is written as the single digit `0`.
pub open spec fn upper_hex(n: nat) -> Seq<char>
    decreases n,
{
    if n < 16 {
        seq![upper_hex_digit(n)]
    } else {
        upper_hex(n / 16).push(upper_hex_digit(n % 16))
    }
}

/// Reads `c` as a hexadecimal digit: its value, which is below 16, or `None`
/// where `c` is no such digit.
pub fn hex_digit(c: char) -> (d: Option<u32>)
    ensures
        d is Some <==> is_hex_digit(c),
        d matches Some(v) ==> hex_digit_value(c) == Some(v as nat) && v < 16,
{
    if '0' <= c && c <= '9' {
        Some(c as u32 - '0' as u32)
    } else if 'a' <= c && c <= 'f' {
        Some(c as u32 - 'a' as u32 + 10)
    } else if 'A' <= c && c <= 'F' {
        Some(c as u32 - 'A' as u32 + 10)
    } else {
        None
    }
}

/// The upper-case digit for `d`.
pub fn upper_hex_digit_char(d: u8) -> (c: char)
    requires
        d < 16,
    ensures
        c == upper_hex_digit(d as nat),
{
    if d < 10 {
        ('0' as u8 + d) as char
    } else {
        ('A' as u8 + (d - 10)) as char
    }
}

/// Appends `n`, written in upper-case hexadecimal digits, to `out`.
pub fn push_upper_hex(out: &mut String, n: u32)
    ensures
        final(out)@ == old(out)@ + upper_hex(n as nat),
    decreases n,
{
    if n >= 16 {
        push_upper_hex(out, n / 16);
    }
    out.push(upper_hex_digit_char((n % 16) as u8));
}

} // verus!
