use taskr::text::{
    ascii_lower, chars_of, contains, ends_with, find, is_blank, join, lines, push_decimal,
    split_once, starts_with, string_of, strip_prefix, to_lowercase, trim, trim_end_char,
};

fn s(v: &Vec<char>) -> String {
    string_of(v)
}

#[test]
fn lines_agree_with_std() {
    for text in ["", "a", "a\n", "a\n\nb", "a\r\nb\r\n", "x\r", "\n\n", "a\rb\n c"] {
        let ours: Vec<String> = lines(&chars_of(text)).iter().map(s).collect();
        let std: Vec<String> = text.lines().map(|l| l.to_string()).collect();
        assert_eq!(ours, std, "input {text:?}");
    }
}

#[test]
fn trim_agrees_with_std() {
    for text in ["", "  a b  ", "\t\u{3000}x\u{2028}", "\u{85}y\u{a0}", "\u{200b}z\u{200b}", "   "] {
        assert_eq!(s(&trim(&chars_of(text))), text.trim(), "input {text:?}");
        assert_eq!(is_blank(text), text.trim().is_empty());
    }
}

#[test]
fn search_helpers_agree_with_std() {
    let hay = chars_of("ab - cd - ef");
    assert_eq!(find(&hay, &chars_of(" - ")), Some(2));
    assert_eq!(find(&hay, &chars_of("zz")), None);
    assert_eq!(find(&hay, &chars_of("")), Some(0));
    assert!(contains(&hay, &chars_of("cd")));
    assert!(starts_with(&hay, &chars_of("ab")));
    assert!(ends_with(&hay, &chars_of("ef")));
    assert!(!ends_with(&hay, &chars_of("e")));
    let (a, b) = split_once(&hay, " - ").unwrap();
    assert_eq!((s(&a), s(&b)), ("ab".to_string(), "cd - ef".to_string()));
    assert!(split_once(&chars_of("abc"), " - ").is_none());
    assert_eq!(strip_prefix(&hay, "ab").map(|v| s(&v)), Some(" - cd - ef".to_string()));
    assert!(strip_prefix(&hay, "cd").is_none());
    assert_eq!(s(&trim_end_char(&chars_of("Done:::"), ':')), "Done");
}

#[test]
fn case_and_number_helpers() {
    assert_eq!(s(&ascii_lower(&chars_of("HiGH É"))), "high É");
    assert_eq!(to_lowercase("ÉCOLE ΣΑΣ"), "ÉCOLE ΣΑΣ".to_lowercase());
    let mut out = String::new();
    push_decimal(&mut out, 0);
    out.push(',');
    push_decimal(&mut out, 18446744073709551615);
    assert_eq!(out, "0,18446744073709551615");
    assert_eq!(join(&vec!["a".into(), "b".into(), "c".into()], ","), "a,b,c");
    assert_eq!(join(&vec![], ","), "");
}

#[test]
fn whitespace_agrees_with_std_on_every_char() {
    for u in 0u32..=0x10FFFF {
        if let Some(c) = char::from_u32(u) {
            assert_eq!(taskr::text::char_is_whitespace(c), c.is_whitespace(), "char {u:#x}");
        }
    }
}
