//! The ways in which a literal can fail to decode.

use vstd::prelude::*;
use crate::hex::{push_upper_hex, upper_hex};

verus! {

/// Why a literal denotes no string.
#[derive(Clone, Copy, Debug, PartialEq, Eq, Structural)]
pub enum DecodeError {
    /// A backslash is followed by this character, which selects no escape.
    InvalidEscape(char),
    /// A numeric escape has this value, which is no Unicode scalar value.
    InvalidCodePoint(u32),
}

impl DecodeError {
    /// The text of the message that describes this error.
    pub open spec fn message_text(self) -> Seq<char> {
        match self {
            DecodeError::InvalidEscape(c) => "Invalid escape code '\\"@.push(c) + "'."@,
            DecodeError::InvalidCodePoint(v) => "Invalid code point U+"@ + upper_hex(v as nat)
                + "."@,
        }
    }

    /// Describes the error for a human reader: an invalid escape by the
    /// character after the backslash, an invalid code point by its value in
    /// upper-case hexadecimal digits.
    pub fn message(&self) -> (msg: String)
        ensures
            msg@ == self.message_text(),
    {
        match *self {
            DecodeError::InvalidEscape(c) => {
                let mut msg = String::from_str("Invalid escape code '\\");
                msg.push(c);
                msg.append("'.");
                msg
            },
            DecodeError::InvalidCodePoint(v) => {
                let mut msg = String::from_str("Invalid code point U+");
                push_upper_hex(&mut msg, v);
                msg.append(".");
                msg
            },
        }
    }
}

} // verus!
