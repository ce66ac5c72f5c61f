use lalrpop_util::ParseError;
use literal_unescape::error::DecodeError;
use literal_unescape::parse_error::into_parse_error;
use literal_unescape::parser::{char_from_codepoint, unescape_string_literal};

#[test]
fn invalid_escape_message_names_the_character() {
    assert_eq!("Invalid escape code '\\q'.", DecodeError::InvalidEscape('q').message());
    assert_eq!("Invalid escape code '\\\u{e9}'.", DecodeError::InvalidEscape('\u{e9}').message());
}

#[test]
fn invalid_code_point_message_is_upper_case_hexadecimal() {
    assert_eq!("Invalid code point U+D800.", DecodeError::InvalidCodePoint(0xd800).message());
    assert_eq!("Invalid code point U+110000.", DecodeError::InvalidCodePoint(0x110000).message());
    assert_eq!("Invalid code point U+ABCDEF.", DecodeError::InvalidCodePoint(0xabcdef).message());
}

#[test]
fn invalid_code_point_message_has_no_leading_zeros() {
    assert_eq!("Invalid code point U+0.", DecodeError::InvalidCodePoint(0).message());
    assert_eq!("Invalid code point U+F.", DecodeError::InvalidCodePoint(15).message());
    assert_eq!("Invalid code point U+10.", DecodeError::InvalidCodePoint(16).message());
    assert_eq!("Invalid code point U+FFFFFFFF.", DecodeError::InvalidCodePoint(u32::MAX).message());
}

#[test]
fn message_agrees_with_the_formatter() {
    for v in [0u32, 9, 10, 255, 256, 0xd800, 0xdfff, 0x110000, 0xffffff, 0x1234_5678] {
        let expected = format!("Invalid code point U+{:X}.", v);
        assert_eq!(expected, DecodeError::InvalidCodePoint(v).message());
    }
    for c in ['q', '\'', ' ', '\u{1f574}'] {
        let expected = format!("Invalid escape code '\\{}'.", c);
        assert_eq!(expected, DecodeError::InvalidEscape(c).message());
    }
}

#[test]
fn decoding_errors_carry_their_messages() {
    let escape = unescape_string_literal("\"\\q\"").unwrap_err();
    assert_eq!("Invalid escape code '\\q'.", escape.message());
    let code_point = unescape_string_literal("\"\\udead\"").unwrap_err();
    assert_eq!("Invalid code point U+DEAD.", code_point.message());
}

#[test]
fn parse_error_is_a_user_error_with_the_message() {
    let error: ParseError<usize, (), String> = into_parse_error(DecodeError::InvalidEscape('q'));
    assert_eq!(ParseError::User { error: String::from("Invalid escape code '\\q'.") }, error);
    let error: ParseError<usize, &str, String> =
        into_parse_error(DecodeError::InvalidCodePoint(0x110000));
    assert_eq!(ParseError::User { error: String::from("Invalid code point U+110000.") }, error);
}

#[test]
fn decoding_error_maps_into_a_parse_error() {
    let x: Result<String, ParseError<usize, (), String>> =
        unescape_string_literal("\"\\ud800\"").map_err(into_parse_error);
    assert_eq!(Err(ParseError::User { error: String::from("Invalid code point U+D800.") }), x);
}

#[test]
fn char_from_codepoint_gives_scalar_values() {
    assert_eq!(Ok('\0'), char_from_codepoint(0));
    assert_eq!(Ok('A'), char_from_codepoint(0x41));
    assert_eq!(Ok('\u{d7ff}'), char_from_codepoint(0xd7ff));
    assert_eq!(Ok('\u{e000}'), char_from_codepoint(0xe000));
    assert_eq!(Ok('\u{10ffff}'), char_from_codepoint(0x10ffff));
}

#[test]
fn char_from_codepoint_refuses_other_values() {
    assert_eq!(Err(DecodeError::InvalidCodePoint(0xd800)), char_from_codepoint(0xd800));
    assert_eq!(Err(DecodeError::InvalidCodePoint(0xdfff)), char_from_codepoint(0xdfff));
    assert_eq!(Err(DecodeError::InvalidCodePoint(0x110000)), char_from_codepoint(0x110000));
    assert_eq!(Err(DecodeError::InvalidCodePoint(u32::MAX)), char_from_codepoint(u32::MAX));
}
