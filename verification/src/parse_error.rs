//! Handing a decoding error to a parser generated by LALRPOP, as the user
//! error of its `ParseError`.

use vstd::prelude::*;
use lalrpop_util::ParseError;
use crate::error::DecodeError;

verus! {

/// The error type of the parsers that LALRPOP generates, with its variants
/// and their fields as `lalrpop_util` declares them.
#[verifier::external_type_specification]
#[verifier::reject_recursive_types(L)]
#[verifier::reject_recursive_types(T)]
#[verifier::reject_recursive_types(E)]
pub struct ExParseError<L, T, E>(ParseError<L, T, E>);

/// Wraps `error` as a parser's user error that carries the error's message,
/// whatever the parser's location and token types are.
pub fn into_parse_error<L, T>(error: DecodeError) -> (res: ParseError<L, T, String>)
    ensures
        (res matches ParseError::User { error: msg } && msg@ == error.message_text()),
{
    ParseError::User { error: error.message() }
}

} // verus!
