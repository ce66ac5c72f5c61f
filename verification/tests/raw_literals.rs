use literal_unescape::parser::unescape_raw_string_literal;

#[test]
fn raw_literal_loses_its_fences() {
    assert_eq!("abc", unescape_raw_string_literal("---abc---"));
}

#[test]
fn raw_literal_of_fences_only_is_empty() {
    assert_eq!("", unescape_raw_string_literal("------"));
}

#[test]
fn raw_literal_keeps_backslashes_and_indentation() {
    let raw = "---\n    a\\nb\n      c \u{1f574}\n---";
    assert_eq!("\n    a\\nb\n      c \u{1f574}\n", unescape_raw_string_literal(raw));
}

#[test]
fn raw_literal_keeps_dashes_inside() {
    assert_eq!("-", unescape_raw_string_literal("-------"));
}
