use wiresmart::text::{
    chars_of, comes_before, contains_text, decimal_text, distinct_words, split_whitespace, trim,
    trim_end, white_space,
};

#[test]
fn white_space_is_the_unicode_property() {
    for u in 0..=0x10ffffu32 {
        if let Some(c) = char::from_u32(u) {
            assert_eq!(white_space(c), c.is_whitespace(), "U+{:04X}", u);
        }
    }
}

#[test]
fn trim_is_like_str_trim() {
    for s in [
        "", " ", "\t\n", "a", " a", "a ", " \t a b \n", "\u{3000}ä\u{2003}", "\u{200b}x", "x\u{85}",
        "\r\n0\r\n",
    ] {
        assert_eq!(trim(s), s.trim());
        assert_eq!(trim_end(s), s.trim_end());
        assert_eq!(trim(trim(s)), trim(s));
    }
}

#[test]
fn words_are_like_split_whitespace() {
    for s in ["", "  ", "wg0", "wg0 wg1\n", "\twg0\u{a0}wg1  ü\u{2028}", "a b a"] {
        let expected: Vec<String> = s.split_whitespace().map(|w| w.to_owned()).collect();
        assert_eq!(split_whitespace(s), expected);
    }
}

#[test]
fn words_have_nothing_to_trim() {
    for w in split_whitespace(" a  bc\n\nd\t") {
        assert!(!w.is_empty());
        assert_eq!(trim(&w), w);
    }
}

#[test]
fn distinct_words_come_once() {
    assert_eq!(distinct_words("b a b  c a"), vec!["b", "a", "c"]);
    assert!(distinct_words(" \n").is_empty());
}

#[test]
fn contains_text_compares_whole_texts() {
    let v = vec!["wg0".to_owned(), "wg10".to_owned()];
    assert!(contains_text(&v, &"wg10".to_owned()));
    assert!(!contains_text(&v, &"wg1".to_owned()));
    assert!(!contains_text(&Vec::new(), &"".to_owned()));
}

#[test]
fn decimal_is_like_to_string() {
    for n in [0usize, 1, 9, 10, 11, 99, 100, 305, 1234567890, usize::MAX] {
        assert_eq!(decimal_text(n), n.to_string());
    }
}

#[test]
fn order_is_like_str_order() {
    let samples = ["", "a", "ab", "b", "A", "wg0", "wg1", "wg10", "ä", "€", "\u{10000}", "\u{ffff}"];
    for a in samples {
        for b in samples {
            assert_eq!(comes_before(a, b), a < b, "{} {}", a, b);
        }
    }
}

#[test]
fn chars_of_multibyte_text() {
    assert_eq!(chars_of("aä€"), vec!['a', 'ä', '€']);
}
