//! Decoding of string literals: from the text of a literal as it stands in a
//! source document, quotes and escapes included, to the string it denotes.
//!
//! [`parser::unescape_string_literal`] decodes a quoted literal in one pass
//! over its characters, as an automaton of three states
//! ([`automaton::EscState`]). What it returns is proved to be what the
//! grammar of literals in [`grammar`] says the literal denotes;
//! [`laws`] states what follows from that grammar for every literal.
//! Decoding fails with a [`error::DecodeError`], which
//! [`parse_error::into_parse_error`] hands to a parser generated by LALRPOP.

pub mod automaton;
pub mod error;
pub mod grammar;
pub mod grammar_lemmas;
pub mod hex;
pub mod laws;
pub mod parse_error;
pub mod parser;
pub mod std_specs;
