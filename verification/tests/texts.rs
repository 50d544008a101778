use worktree_prune::text;

#[test]
fn trim_agrees_with_std() {
    for s in ["", " ", "a", " a ", "\u{a0}x y\u{3000}", "\t\n\r\u{b}\u{c}z\u{85}", "\u{200b}q\u{feff}"] {
        assert_eq!(text::trim(s), s.trim());
    }
    for n in 0..0x3100u32 {
        if let Some(c) = char::from_u32(n) {
            assert_eq!(text::is_white(c), c.is_whitespace());
        }
    }
}

#[test]
fn first_word_agrees_with_std() {
    for s in ["", "  ", "a b", " 12\tx", "\u{2003}ab\u{2003}c"] {
        let got: String = text::first_word(s).iter().collect();
        assert_eq!(got, s.split_whitespace().next().unwrap_or(""));
    }
}

#[test]
fn numbers_agree_with_std() {
    for s in ["", "+", "-1", "0", "00", "+5", "42", "18446744073709551615", "18446744073709551616", "1 ", "٣"] {
        let chars: Vec<char> = s.chars().collect();
        assert_eq!(text::parse_number(&chars), s.parse::<u64>().ok());
    }
    for n in [0u64, 7, 10, 99, 100, 12345, u64::MAX] {
        assert_eq!(text::to_decimal(n), n.to_string());
    }
    for n in [0u32, 15, 16, 255, 0x10ffff, u32::MAX] {
        assert_eq!(text::to_hexadecimal(n), format!("{n:x}"));
    }
}

#[test]
fn escapes_agree_with_std() {
    for s in ["", "plain", "a\nb\t\r", "quote'\"\\", "é\u{7f}\u{0}", "日本", "\u{10ffff}"] {
        assert_eq!(text::escape(s), s.escape_default().to_string());
    }
}

#[test]
fn padding_agrees_with_std() {
    for s in ["", "abc", "éé", "longer than that"] {
        assert_eq!(text::pad(s.to_string(), 7), format!("{s:<7}"));
    }
}

#[test]
fn joining_and_stripping() {
    let list = vec!["a".to_string(), "".to_string(), "c".to_string()];
    assert_eq!(text::join(&list, ", "), "a, , c");
    assert_eq!(text::join(&list[..1], ", "), "a");
    assert_eq!(text::join(&[], ", "), "");
    assert_eq!(text::strip("gitdir: x", "gitdir: "), Some("x".to_string()));
    assert_eq!(text::strip("gitdir:x", "gitdir: "), None);
    assert_eq!(text::strip("g", "gitdir: "), None);
    assert!(text::same("é", "é"));
    assert!(!text::same("é", "e"));
}

#[test]
fn escaped_text_is_not_filled_up() {
    // A width is ignored where escaped text is shown, so a listing does not pad its names.
    assert_eq!(format!("{:<9}|", "a".escape_default()), "a|");
}
