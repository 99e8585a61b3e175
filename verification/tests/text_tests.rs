use rsbackup::text::{
    chars_of, has_prefix, is_whitespace_char, is_word, push_decimal, push_signed_decimal,
    string_of, text_of, trim_line,
};

fn chars(s: &str) -> Vec<char> {
    s.chars().collect()
}

#[test]
fn whitespace_agrees_with_the_standard_library() {
    let mut code: u32 = 0;
    while code <= 0x10FFFF {
        if let Some(c) = char::from_u32(code) {
            assert_eq!(is_whitespace_char(c), c.is_whitespace(), "code point {:#x}", code);
        }
        code += 1;
    }
}

#[test]
fn chars_of_keeps_every_character() {
    assert_eq!(chars_of(""), Vec::<char>::new());
    assert_eq!(chars_of("a=b"), vec!['a', '=', 'b']);
    assert_eq!(chars_of("é\u{3000}z"), vec!['é', '\u{3000}', 'z']);
}

#[test]
fn string_of_takes_the_given_range() {
    let line = chars("SRC=/home/me");
    assert_eq!(string_of(&line, 4, line.len()), "/home/me");
    assert_eq!(string_of(&line, 0, 3), "SRC");
    assert_eq!(string_of(&line, 5, 5), "");
    assert_eq!(text_of(&line), "SRC=/home/me");
}

#[test]
fn trim_line_strips_both_ends_only() {
    assert_eq!(trim_line(&chars("  [END] \r")), chars("[END]"));
    assert_eq!(trim_line(&chars("SRC= /a b ")), chars("SRC= /a b"));
    assert_eq!(trim_line(&chars("\u{a0}x\u{2003}")), chars("x"));
    assert_eq!(trim_line(&chars(" \t ")), chars(""));
    assert_eq!(trim_line(&chars("")), chars(""));
    assert_eq!(trim_line(&chars("plain")), chars("plain"));
}

#[test]
fn trim_line_agrees_with_the_standard_library() {
    for s in ["", " ", "a", " a", "a ", "\ta b\n", "\u{1680}x y\u{205f}", "\u{200b}z "] {
        assert_eq!(text_of(&trim_line(&chars(s))), s.trim());
    }
}

#[test]
fn has_prefix_compares_from_the_start() {
    assert!(has_prefix(&chars("SRC=/a"), "SRC="));
    assert!(has_prefix(&chars("SRC="), "SRC="));
    assert!(has_prefix(&chars("anything"), ""));
    assert!(!has_prefix(&chars("SRC"), "SRC="));
    assert!(!has_prefix(&chars("XSRC=/a"), "SRC="));
    assert!(!has_prefix(&chars(""), "ID="));
    assert!(!has_prefix(&chars("INFR=x"), "ID="));
}

#[test]
fn is_word_wants_the_whole_line() {
    assert!(is_word(&chars("[END]"), "[END]"));
    assert!(!is_word(&chars("[END] "), "[END]"));
    assert!(!is_word(&chars("[END"), "[END]"));
    assert!(is_word(&chars(""), ""));
}

#[test]
fn decimal_digits_are_exact() {
    for (n, text) in [
        (0u64, "0"),
        (7, "7"),
        (10, "10"),
        (42, "42"),
        (1000, "1000"),
        (18446744073709551615, "18446744073709551615"),
    ] {
        let mut out = String::from("#");
        push_decimal(&mut out, n);
        assert_eq!(out, format!("#{}", text));
    }
}

#[test]
fn signed_decimal_digits_are_exact() {
    for n in [0i32, 1, -1, 23, -255, 2147483647, -2147483648] {
        let mut out = String::new();
        push_signed_decimal(&mut out, n);
        assert_eq!(out, format!("{}", n));
    }
}
