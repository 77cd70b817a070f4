use gateway_proxy::text::{
    is_blank, is_white_space, joined, replace_char, same_text, split, take_before, to_ascii_lowercase,
    to_decimal, trim, trim_end_slashes, trim_utf8,
};

#[test]
fn white_space_is_that_of_std() {
    for n in 0..=0x10ffffu32 {
        if let Some(c) = char::from_u32(n) {
            assert_eq!(is_white_space(c), c.is_whitespace(), "U+{n:04X}");
        }
    }
}

#[test]
fn trimming_is_that_of_std() {
    for text in [
        "", " ", "a", " a", "a ", " a b ", "\t\n a\u{3000}", "\u{a0}\u{2028}x y\u{85}", "中 文",
        "\u{200b}a\u{200b}", "   \u{1680}",
    ] {
        assert_eq!(trim(text), text.trim());
        assert_eq!(is_blank(text), text.trim().is_empty());
    }
}

#[test]
fn utf8_is_decoded_and_trimmed() {
    assert_eq!(trim_utf8(" 2001:db8::25\n".as_bytes()), Some("2001:db8::25"));
    assert_eq!(trim_utf8("中文\n".as_bytes()), Some("中文"));
    assert_eq!(trim_utf8(b""), Some(""));
    assert_eq!(trim_utf8(&[0x32, 0xff]), None);
    assert_eq!(trim_utf8(&[0xe4, 0xb8]), None);
    assert_eq!(trim_utf8(&[0xed, 0xa0, 0x80]), None);
}

#[test]
fn ascii_lowercase_leaves_other_letters() {
    assert_eq!(to_ascii_lowercase("WWW.Example.COM"), "www.example.com");
    assert_eq!(to_ascii_lowercase("ÀZ"), "Àz");
    assert_eq!(to_ascii_lowercase("ÀZ"), "ÀZ".to_ascii_lowercase());
}

#[test]
fn pieces_are_those_of_std() {
    for text in ["", "a", "a,b", ",", "a,,b,", " upgrade, X-Foo"] {
        let expected: Vec<String> = text.split(',').map(str::to_owned).collect();
        assert_eq!(split(text, ','), expected);
        assert_eq!(Some(take_before(text, ',')), text.split(',').next());
    }
}

#[test]
fn small_helpers() {
    assert_eq!(trim_end_slashes("http://a//"), "http://a");
    assert_eq!(trim_end_slashes("///"), "");
    assert_eq!(trim_end_slashes("http://a/b"), "http://a/b");
    assert_eq!(replace_char("*.a.*", '*', "%2A"), "%2A.a.%2A");
    assert_eq!(joined("mailto:", "a@b"), "mailto:a@b");
    assert!(same_text("ab", "ab"));
    assert!(!same_text("ab", "aB"));
    for n in [0, 7, 10, 443, 65535, u64::MAX] {
        assert_eq!(to_decimal(n), n.to_string());
    }
}
