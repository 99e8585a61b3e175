use rsbackup::reader::LineReader;

fn all_lines(text: &str) -> Vec<String> {
    let mut reader = LineReader::new(text);
    let mut lines = Vec::new();
    while let Some(line) = reader.read_line() {
        lines.push(line.into_iter().collect::<String>());
    }
    assert_eq!(reader.read_line(), None);
    lines
}

#[test]
fn empty_text_has_no_lines() {
    assert_eq!(all_lines(""), Vec::<String>::new());
}

#[test]
fn lines_come_without_their_line_feed() {
    assert_eq!(all_lines("a\nbc\n"), vec!["a", "bc"]);
}

#[test]
fn a_last_line_needs_no_line_feed() {
    assert_eq!(all_lines("a\nbc"), vec!["a", "bc"]);
    assert_eq!(all_lines("x"), vec!["x"]);
}

#[test]
fn empty_lines_are_lines() {
    assert_eq!(all_lines("\n"), vec![""]);
    assert_eq!(all_lines("a\n\n\nb"), vec!["a", "", "", "b"]);
}

#[test]
fn carriage_returns_stay_in_the_line() {
    assert_eq!(all_lines("a\r\nb\r\n"), vec!["a\r", "b\r"]);
}

#[test]
fn the_reader_agrees_with_the_standard_library() {
    for text in ["", "\n", "a", "a\n", "a\nb", "\n\na\n\n", "ü\n#c\n [END] \n"] {
        let expected: Vec<String> = text.split_terminator('\n').map(String::from).collect();
        assert_eq!(all_lines(text), expected, "text {:?}", text);
    }
}
