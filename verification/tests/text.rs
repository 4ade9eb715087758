use document_manager::text::{
    bytes_equal, bytes_less, contains_bytes, decimal_text, fold_byte, remove_all, text_equal, trim,
};

#[test]
fn fold_byte_lowers_ascii_letters_only() {
    assert_eq!(fold_byte(b'A'), b'a');
    assert_eq!(fold_byte(b'Z'), b'z');
    assert_eq!(fold_byte(b'a'), b'a');
    assert_eq!(fold_byte(b'@'), b'@');
    assert_eq!(fold_byte(b'['), b'[');
    assert_eq!(fold_byte(0xc4), 0xc4);
    for b in 0..=255u8 {
        assert_eq!(fold_byte(b), b.to_ascii_lowercase());
    }
}

#[test]
fn contains_bytes_finds_at_every_position() {
    assert!(contains_bytes(b"hello world", b"hello", false));
    assert!(contains_bytes(b"hello world", b"o w", false));
    assert!(contains_bytes(b"hello world", b"world", false));
    assert!(contains_bytes(b"hello world", b"", false));
    assert!(contains_bytes(b"", b"", false));
    assert!(!contains_bytes(b"", b"a", false));
    assert!(!contains_bytes(b"hello", b"hello!", false));
    assert!(!contains_bytes(b"hello world", b"World", false));
    assert!(contains_bytes(b"hello world", b"World", true));
    assert!(contains_bytes(b"HELLO", b"ell", true));
    assert!(!contains_bytes(b"aab", b"abb", true));
    assert!(contains_bytes(b"aaab", b"aab", false));
}

#[test]
fn bytes_less_is_the_order_of_byte_strings() {
    let samples: [&[u8]; 8] = [b"", b"a", b"ab", b"abc", b"b", b"B", b"\xff", b"a\x00"];
    for a in samples {
        for b in samples {
            assert_eq!(bytes_less(a, b), a < b);
            assert_eq!(bytes_equal(a, b), a == b);
        }
    }
}

#[test]
fn text_equal_compares_texts() {
    assert!(text_equal("low", "low"));
    assert!(!text_equal("low", "Low"));
    assert!(!text_equal("low", "lo"));
    assert!(text_equal("", ""));
    assert!(text_equal("é", "é"));
}

#[test]
fn trim_agrees_with_the_standard_library() {
    let samples = [
        "",
        " ",
        "a",
        "  a  ",
        "\t\n a b \r\n",
        "\u{a0}x\u{3000}",
        "\u{85}\u{1680}\u{2000}\u{200a}\u{2028}\u{2029}\u{202f}\u{205f}y",
        "\u{200b}z\u{200b}",
        "\u{b}\u{c}q\u{1c}",
        "é ",
    ];
    for s in samples {
        assert_eq!(trim(s), s.trim());
    }
    for u in 0..0x3100u32 {
        if let Some(c) = char::from_u32(u) {
            let s = format!("{}x{}", c, c);
            assert_eq!(trim(&s), s.trim());
        }
    }
}

#[test]
fn remove_all_agrees_with_the_standard_library() {
    let samples = [
        ("pdf_editor.py", ".py"),
        ("a.py.b.py", ".py"),
        ("..pypy", ".py"),
        (".p.py.y", ".py"),
        ("aaaa", "aa"),
        ("aaa", "aa"),
        ("abc", ""),
        ("", "x"),
        ("x", "xy"),
        ("é.py", ".py"),
    ];
    for (text, pattern) in samples {
        if pattern.is_empty() {
            assert_eq!(remove_all(text, pattern), text);
        } else {
            assert_eq!(remove_all(text, pattern), text.replace(pattern, ""));
        }
    }
    assert_eq!(remove_all("pdf_editor.py", ".py"), "pdf_editor");
}

#[test]
fn decimal_text_writes_numbers() {
    assert_eq!(decimal_text(0), "0");
    assert_eq!(decimal_text(7), "7");
    assert_eq!(decimal_text(10), "10");
    assert_eq!(decimal_text(300), "300");
    assert_eq!(decimal_text(4294967295), "4294967295");
    assert_eq!(decimal_text(u64::MAX), u64::MAX.to_string());
}
