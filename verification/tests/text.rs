use xtask_utils::text::{decimal_string, split_whitespace, whitespace};

#[test]
fn white_space_is_what_the_standard_library_says() {
    for code in 0..=0x10ffff_u32 {
        if let Some(c) = char::from_u32(code) {
            assert_eq!(whitespace(c), c.is_whitespace(), "U+{:04X}", code);
        }
    }
}

#[test]
fn split_gives_the_words_in_order() {
    assert_eq!(split_whitespace("echo hello world"), vec!["echo", "hello", "world"]);
    assert_eq!(split_whitespace(""), Vec::<String>::new());
    assert_eq!(split_whitespace("   "), Vec::<String>::new());
    assert_eq!(split_whitespace("x"), vec!["x"]);
    assert_eq!(split_whitespace(" \t a\r\nbc\u{b}d \u{c}"), vec!["a", "bc", "d"]);
    assert_eq!(
        split_whitespace("\u{e9}t\u{e9} \u{1f600}\u{2009}z"),
        vec!["\u{e9}t\u{e9}", "\u{1f600}", "z"]
    );
}

#[test]
fn split_agrees_with_the_standard_library() {
    let samples = [
        "cargo run --manifest-path test-helper -- exit-code 1",
        "  leading",
        "trailing  ",
        "a\u{a0}b",
        "a\u{200b}b",
        "\u{1680}\u{2000}x\u{200a}\u{202f}y\u{205f}\u{3000}",
        "tab\tnew\nline\r\nfeed\u{c}vt\u{b}nel\u{85}ls\u{2028}ps\u{2029}end",
    ];
    for sample in samples {
        let expected: Vec<String> = sample.split_whitespace().map(|w| w.to_string()).collect();
        assert_eq!(split_whitespace(sample), expected, "{:?}", sample);
    }
}

#[test]
fn decimal_of_an_integer() {
    assert_eq!(decimal_string(0), "0");
    assert_eq!(decimal_string(7), "7");
    assert_eq!(decimal_string(10), "10");
    assert_eq!(decimal_string(-1), "-1");
    assert_eq!(decimal_string(1234567890), "1234567890");
    assert_eq!(decimal_string(i32::MAX), "2147483647");
    assert_eq!(decimal_string(i32::MIN), "-2147483648");
    for n in [-1000, -99, -10, 9, 99, 100, 101, 65535] {
        assert_eq!(decimal_string(n), n.to_string());
    }
}
