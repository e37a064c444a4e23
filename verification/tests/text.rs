use pixie::text::{contains_whitespace, is_blank_text, is_whitespace};

#[test]
fn whitespace_is_what_the_standard_library_calls_whitespace() {
    for code in 0u32..=0x10FFFF {
        if let Some(c) = char::from_u32(code) {
            assert_eq!(is_whitespace(c), c.is_whitespace(), "U+{:04X}", code);
        }
    }
}

#[test]
fn whitespace_is_found_anywhere_in_a_text() {
    assert!(contains_whitespace("a b"));
    assert!(contains_whitespace(" ab"));
    assert!(contains_whitespace("ab\n"));
    assert!(contains_whitespace("a\u{3000}b"));
    assert!(!contains_whitespace("ab"));
    assert!(!contains_whitespace(""));
    assert!(!contains_whitespace("a\u{200B}b"));
}

#[test]
fn blank_text_holds_nothing_but_whitespace() {
    assert!(is_blank_text(""));
    assert!(is_blank_text(" \t\r\n"));
    assert!(is_blank_text("\u{2003}\u{00A0}"));
    assert!(!is_blank_text(" x "));
}

#[test]
fn trimming_is_what_the_standard_library_calls_trimming() {
    let samples = [
        "",
        " ",
        "a",
        " a",
        "a ",
        "  a b  ",
        "\t\r\n token \u{85}\u{a0}",
        "\u{1680}\u{2000}x\u{200a}\u{2028}y\u{2029}\u{202f}\u{205f}\u{3000}",
        "\u{200b}zero width is kept\u{200b}",
        " \u{e9}t\u{e9} ",
        "\n\n\n",
    ];
    for text in samples {
        assert_eq!(pixie::text::trim(text), text.trim(), "{text:?}");
    }
}
