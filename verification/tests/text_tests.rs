use ghc::text::{
    chars_of, contains_chars, is_white_space_char, lex_less, push_decimal, push_signed_decimal,
    string_of, trim_chars, TrimSet,
};

fn s(v: &[char]) -> String {
    v.iter().collect()
}

#[test]
fn white_space_matches_std() {
    for u in 0u32..=0x10FFFF {
        if let Some(c) = char::from_u32(u) {
            assert_eq!(is_white_space_char(c), c.is_whitespace(), "U+{u:04X}");
        }
    }
}

#[test]
fn trim_matches_std() {
    for t in ["", "  ", " a b ", "\u{a0}x\u{2028}", "abc", "\t\n x \r\n", "\u{3000}"] {
        assert_eq!(s(&trim_chars(&chars_of(t), TrimSet::WhiteSpace)), t.trim());
        assert_eq!(s(&trim_chars(&chars_of(t), TrimSet::Only('x'))), t.trim_matches('x'));
    }
    assert_eq!(s(&trim_chars(&chars_of("//a/b//"), TrimSet::Only('/'))), "a/b");
}

#[test]
fn lexicographic_order_matches_std() {
    let words = ["", "a", "ab", "b", "B", "é", "z", "2024-01", "2024-01-02", "ü", "😀", "abc"];
    for a in words {
        for b in words {
            assert_eq!(
                lex_less(&chars_of(a), &chars_of(b)),
                a < b,
                "{a:?} < {b:?}"
            );
        }
    }
}

#[test]
fn decimal_rendering() {
    for n in [0u64, 7, 10, 99, 100, 12345, u64::MAX] {
        let mut v = Vec::new();
        push_decimal(&mut v, n);
        assert_eq!(s(&v), n.to_string());
    }
    for n in [0i64, -1, -128, 42, i64::MIN, i64::MAX] {
        let mut v = Vec::new();
        push_signed_decimal(&mut v, n);
        assert_eq!(s(&v), n.to_string());
    }
}

#[test]
fn substring_search() {
    let hay = chars_of("hello world");
    assert!(contains_chars(&hay, &chars_of("lo w")));
    assert!(contains_chars(&hay, &chars_of("")));
    assert!(!contains_chars(&hay, &chars_of("worlds")));
    assert!(!contains_chars(&chars_of(""), &chars_of("a")));
}

#[test]
fn strings_from_characters() {
    assert_eq!(string_of(&chars_of("ümlaut ★")), "ümlaut ★");
    assert_eq!(string_of(&Vec::new()), "");
}
