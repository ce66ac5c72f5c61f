use literal_unescape::hex::{hex_digit, push_upper_hex, upper_hex_digit_char};

#[test]
fn hex_digit_reads_both_cases() {
    assert_eq!(Some(0), hex_digit('0'));
    assert_eq!(Some(9), hex_digit('9'));
    assert_eq!(Some(10), hex_digit('a'));
    assert_eq!(Some(15), hex_digit('f'));
    assert_eq!(Some(10), hex_digit('A'));
    assert_eq!(Some(15), hex_digit('F'));
}

#[test]
fn hex_digit_refuses_other_characters() {
    for c in ['g', 'G', '/', ':', '@', '`', ' ', 'u', '\u{660}', '\u{ff11}'] {
        assert_eq!(None, hex_digit(c));
    }
}

#[test]
fn hex_digit_agrees_with_the_standard_library() {
    for n in 0u32..0x3000 {
        if let Some(c) = char::from_u32(n) {
            assert_eq!(c.to_digit(16), hex_digit(c));
        }
    }
}

#[test]
fn upper_hex_digit_char_gives_sixteen_digits() {
    let digits: String = (0u8..16).map(upper_hex_digit_char).collect();
    assert_eq!("0123456789ABCDEF", digits);
}

#[test]
fn push_upper_hex_appends_after_what_is_there() {
    let mut out = String::from("U+");
    push_upper_hex(&mut out, 0x1f574);
    assert_eq!("U+1F574", out);
    push_upper_hex(&mut out, 0);
    assert_eq!("U+1F5740", out);
}
