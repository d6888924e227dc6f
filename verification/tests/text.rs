use vtrunkd::text::char_is_white_space;
use vtrunkd::text::contains_char;
use vtrunkd::text::decimal_text;
use vtrunkd::text::is_blank_text;
use vtrunkd::text::join;
use vtrunkd::text::same_text;
use vtrunkd::text::starts_with_char;
use vtrunkd::text::trim;

#[test]
fn white_space_is_what_the_standard_library_says() {
    for code in 0..=0x11_0000u32 {
        if let Some(c) = char::from_u32(code) {
            assert_eq!(char_is_white_space(c), c.is_whitespace(), "U+{:04X}", code);
        }
    }
}

#[test]
fn trim_agrees_with_the_standard_library() {
    for text in [
        "",
        " ",
        "a",
        " a",
        "a ",
        "  a b  ",
        "\t\r\nkey==\n",
        "\u{3000}x\u{2003}",
        "   ",
        "é ü",
        " \u{85}é\u{A0} ",
        "a\u{200B}",
    ] {
        assert_eq!(trim(text), text.trim(), "{:?}", text);
        assert_eq!(is_blank_text(text), text.trim().is_empty(), "{:?}", text);
    }
}

#[test]
fn decimal_text_writes_numbers() {
    assert_eq!(decimal_text(0), "0");
    assert_eq!(decimal_text(7), "7");
    assert_eq!(decimal_text(10), "10");
    assert_eq!(decimal_text(65535), "65535");
    assert_eq!(decimal_text(1_000_000_007), "1000000007");
    assert_eq!(decimal_text(u64::MAX), "18446744073709551615");
}

#[test]
fn character_search_and_joining() {
    assert!(contains_char("a:b", ':'));
    assert!(!contains_char("ab", ':'));
    assert!(!contains_char("", ':'));
    assert!(starts_with_char("[x", '['));
    assert!(!starts_with_char("x[", '['));
    assert!(!starts_with_char("", '['));
    assert_eq!(join("ab", "cd"), "abcd");
    assert_eq!(join("", ""), "");
    assert!(same_text("héllo", "héllo"));
    assert!(!same_text("hello", "hellO"));
    assert!(!same_text("hello", "hell"));
    assert!(same_text("", ""));
}
