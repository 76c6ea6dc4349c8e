use pgtest::text::{
    chars_of, comes_before, debug_bytes, format_name, join, lines, split_at_space, text_of,
    text_or_bytes,
};

#[test]
fn format_names() {
    assert_eq!(format_name(0), "text");
    assert_eq!(format_name(1), "binary");
    assert_eq!(format_name(2), "unknown: 2");
    assert_eq!(format_name(10), "unknown: 10");
    assert_eq!(format_name(65535), "unknown: 65535");
}

#[test]
fn byte_lists_read_as_debug_output() {
    assert_eq!(debug_bytes(&[]), "[]");
    assert_eq!(debug_bytes(&[0]), "[0]");
    assert_eq!(debug_bytes(&[255, 1, 10]), "[255, 1, 10]");
    let all: Vec<u8> = (0..=255).collect();
    assert_eq!(debug_bytes(&all), format!("{:?}", all));
}

#[test]
fn well_formed_utf8_is_shown_as_text() {
    assert_eq!(text_or_bytes(b"blah"), "blah");
    assert_eq!(text_or_bytes("h\u{e9}llo \u{1f600}".as_bytes()), "h\u{e9}llo \u{1f600}");
    assert_eq!(text_or_bytes(b""), "");
}

#[test]
fn other_bytes_are_shown_as_a_list() {
    assert_eq!(text_or_bytes(&[0xff, 0xfe]), "[255, 254]");
    assert_eq!(text_or_bytes(&[b'a', 0x80]), "[97, 128]");
    // a surrogate and an overlong form are not UTF-8
    assert_eq!(text_or_bytes(&[0xed, 0xa0, 0x80]), "[237, 160, 128]");
    assert_eq!(text_or_bytes(&[0xc0, 0x80]), "[192, 128]");
}

#[test]
fn join_puts_the_separator_between() {
    let none: Vec<String> = vec![];
    assert_eq!(join(&none, ","), "");
    assert_eq!(join(&vec!["a".to_string()], ","), "a");
    assert_eq!(join(&vec!["a".to_string(), "".to_string(), "c".to_string()], ", "), "a, , c");
}

#[test]
fn chars_and_back() {
    let chars = chars_of("a\u{e9}z");
    assert_eq!(chars, vec!['a', '\u{e9}', 'z']);
    assert_eq!(text_of(&chars, 1, 3), "\u{e9}z");
    assert_eq!(text_of(&chars, 2, 2), "");
}

#[test]
fn lines_agree_with_the_standard_library() {
    let cases = [
        "",
        "\n",
        "a",
        "a\n",
        "a\nb",
        "a\nb\n",
        "a\n\nb\n",
        "\n\n",
        "a\r\nb\r\n",
        "a\rb\n",
        "a\r",
        "a\n\r",
        "\r\n",
        "a\r\r\n",
        "ReadyForQuery\nCommandComplete\n",
    ];
    for case in cases {
        let want: Vec<String> = case.lines().map(|l| l.to_string()).collect();
        assert_eq!(lines(case), want, "lines of {:?}", case);
    }
}

#[test]
fn split_at_first_space() {
    assert_eq!(split_at_space("Query {\"query\": \"SELECT 1\"}"),
        ("Query".to_string(), Some("{\"query\": \"SELECT 1\"}".to_string())));
    assert_eq!(split_at_space("Sync"), ("Sync".to_string(), None));
    assert_eq!(split_at_space("Sync "), ("Sync".to_string(), Some(String::new())));
    assert_eq!(split_at_space(""), (String::new(), None));
    assert_eq!(split_at_space(" x"), (String::new(), Some("x".to_string())));
}

#[test]
fn order_of_texts_is_that_of_strings() {
    let samples = ["", "a", "ab", "b", "B", "secondary", "\u{e9}", "\u{1f600}", "z", "a\u{0}"];
    for a in samples {
        for b in samples {
            assert_eq!(comes_before(a, b), a.to_string() < b.to_string(), "{:?} < {:?}", a, b);
        }
    }
}
