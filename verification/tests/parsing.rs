use bitsink::project::gate::{is_whitespace, parse_bearer, split_words};
use bitsink::routing::split_tenant;
use bitsink::text::{chars_of, clone_texts, holds_text, to_hex_lower};

#[test]
fn white_space_is_what_the_standard_library_says() {
    for code in 0..=0x10FFFFu32 {
        if let Some(c) = char::from_u32(code) {
            assert_eq!(is_whitespace(c), c.is_whitespace(), "U+{:04X}", code);
        }
    }
}

#[test]
fn words_are_split_as_the_standard_library_splits() {
    let samples = [
        "",
        " ",
        "a",
        " a",
        "a ",
        "Bearer abc",
        "  Bearer   abc  ",
        "\tBearer\nabc\r\n",
        "one two three",
        "a\u{a0}b\u{2003}c\u{3000}d",
        "no-space",
        "\u{85}x\u{1680}y\u{2028}z\u{2029}\u{202f}\u{205f}",
        "zero\u{200b}width",
        "héllo wörld",
    ];
    for s in samples {
        let expected: Vec<String> = s.split_whitespace().map(|w| w.to_string()).collect();
        assert_eq!(split_words(s), expected, "{:?}", s);
    }
}

#[test]
fn bearer_header_is_two_words_of_which_the_first_is_bearer() {
    assert_eq!(parse_bearer("Bearer abc"), Some("abc".to_string()));
    assert_eq!(parse_bearer("  Bearer \t a.b.c \n"), Some("a.b.c".to_string()));
    assert_eq!(parse_bearer("Bearer"), None);
    assert_eq!(parse_bearer(""), None);
    assert_eq!(parse_bearer("abc"), None);
    assert_eq!(parse_bearer("bearer abc"), None);
    assert_eq!(parse_bearer("BEARER abc"), None);
    assert_eq!(parse_bearer("Bearer abc def"), None);
    assert_eq!(parse_bearer("abc Bearer"), None);
    assert_eq!(parse_bearer("Bearer Bearer"), Some("Bearer".to_string()));
}

#[test]
fn tenant_prefix_is_split_off() {
    let cases = [
        ("/abc/ping", "abc", "/ping"),
        ("/abc", "abc", "/"),
        ("/abc/", "abc", "/"),
        ("/abc/x/y", "abc", "/x/y"),
        ("/abc//x", "abc", "//x"),
        ("/", "", "/"),
        ("", "", "/"),
        ("//x", "", "/x"),
        ("abc", "", "/"),
        ("abc/def", "def", "/"),
        ("abc/def/x", "def", "/"),
        ("/ünï/çødé", "ünï", "/çødé"),
    ];
    for (path, segment, rest) in cases {
        let parts = split_tenant(path);
        assert_eq!(parts.0, segment, "{:?}", path);
        assert_eq!(parts.1, rest, "{:?}", path);
        let first = path.split('/').nth(1).unwrap_or("");
        assert_eq!(parts.0, first);
        let stripped = path.strip_prefix(&format!("/{}", first)).unwrap_or("/");
        if !stripped.is_empty() {
            assert_eq!(parts.1, stripped);
        }
    }
}

#[test]
fn hexadecimal_text_is_lower_case_two_digits_per_byte() {
    assert_eq!(to_hex_lower(&vec![]), "");
    assert_eq!(to_hex_lower(&vec![0x00, 0x0f, 0x10, 0xab, 0xff]), "000f10abff");
    let all: Vec<u8> = (0..=255).collect();
    let mut expected = String::new();
    for b in &all {
        expected.push_str(&format!("{:02x}", b));
    }
    assert_eq!(to_hex_lower(&all), expected);
}

#[test]
fn text_helpers_keep_the_characters() {
    assert_eq!(chars_of("héllo"), vec!['h', 'é', 'l', 'l', 'o']);
    assert_eq!(chars_of(""), Vec::<char>::new());
    let list = vec!["a".to_string(), "b".to_string()];
    assert_eq!(clone_texts(&list), list);
    assert!(holds_text(&list, "b"));
    assert!(!holds_text(&list, "c"));
    assert!(!holds_text(&vec![], ""));
}
