use rsbackup::config::TaskConfig;
use rsbackup::parser::{read_all, ParseError};
use rsbackup::reader::LineReader;
use rsbackup::task::Task;

fn parse(text: &str) -> Result<TaskConfig, ParseError> {
    TaskConfig::from_reader(&mut LineReader::new(text))
}

fn parse_task(text: &str) -> Result<Task, ParseError> {
    Task::from_reader(&mut LineReader::new(text))
}

#[test]
fn empty_input_holds_no_task() {
    assert_eq!(parse(""), Err(ParseError::EndOfInput));
    assert_eq!(parse_task("").unwrap_err(), ParseError::EndOfInput);
}

#[test]
fn comments_and_empty_lines_hold_no_task() {
    assert_eq!(parse("# nothing here\n\n#\n# [UPDATE]\n\n"), Err(ParseError::EndOfInput));
    assert_eq!(parse("\n\n\n"), Err(ParseError::EndOfInput));
    assert_eq!(parse("#no line feed at the end"), Err(ParseError::EndOfInput));
    assert_eq!(parse(" "), Err(ParseError::EndOfInput));
    assert_eq!(parse("  \t\r\n\u{3000}\n# c\n \n"), Err(ParseError::EndOfInput));
    assert_eq!(parse_task(" ").unwrap_err(), ParseError::EndOfInput);
    assert_eq!(parse_task("# only a comment\n").unwrap_err(), ParseError::EndOfInput);
}

#[test]
fn an_update_stanza_is_read() {
    let task = parse("[UPDATE]\nSRC=/x\nDST=/y\n[END]\n").unwrap();
    let mut expected = TaskConfig::default();
    expected.src = String::from("/x");
    expected.dst = String::from("/y");
    assert_eq!(task, expected);
}

#[test]
fn a_backup_stanza_with_every_field_is_read() {
    let text = "[BACKUP]\nID=nightly\nSRC=/home\nDST=/mnt/backup\nBPATH=/mnt/old\n\
                EXFR=/etc/ex\nINFR=/etc/in\nFIFR=/etc/fi\nCDST=/c1\nLDST=/l1\nCDST=/c2\nLDST=/l2\n\
                [EXCLUDE OTHERS]\n[CONFIRM]\n[COMPARE BPATH]\n[END]\n";
    let task = parse(text).unwrap();
    let expected = TaskConfig {
        id: String::from("nightly"),
        is_update: false,
        always_confirm: true,
        src: String::from("/home"),
        dst: String::from("/mnt/backup"),
        backup_path: String::from("/mnt/old"),
        compare_paths: true,
        link_dest: vec![String::from("/l1"), String::from("/l2")],
        compare_dest: vec![String::from("/c1"), String::from("/c2")],
        exclude_from: String::from("/etc/ex"),
        include_from: String::from("/etc/in"),
        files_from: String::from("/etc/fi"),
        exclude_others: true,
    };
    assert_eq!(task, expected);
}

#[test]
fn comments_and_empty_lines_may_stand_anywhere() {
    let text = "# first\n\n[UPDATE]\n# about the source\nSRC=/x\n\nDST=/y\n#[COMPARE BPATH]\n[END]";
    let task = parse(text).unwrap();
    assert_eq!(task.src, "/x");
    assert_eq!(task.dst, "/y");
    assert!(!task.compare_paths);
}

#[test]
fn blank_lines_of_white_space_are_skipped() {
    let task = parse("[UPDATE]\n   \nSRC=/a\nDST=/b\n[END]\n").unwrap();
    assert!(task.is_update);
    assert_eq!(task.src, "/a");
    assert_eq!(task.dst, "/b");
    let task = parse(" \t\n\r\n[BACKUP]\r\n\r\nSRC=/a\r\n \r\nDST=/b\r\n\u{a0}\n[END]").unwrap();
    assert!(!task.is_update);
    assert_eq!(task.src, "/a");
    assert_eq!(task.dst, "/b");
    assert_eq!(parse("   \n[UPDATE]\n"), Err(ParseError::Truncated));
    assert_eq!(parse("[BACKUP]\n \t\n[END]\n").unwrap().src, "");
}

#[test]
fn white_space_around_a_line_does_not_count() {
    let task = parse("  [BACKUP]\t\r\n\tSRC= /x y \r\n DST=/y\r\n   [END]  \r\n").unwrap();
    assert!(!task.is_update);
    assert_eq!(task.src, " /x y");
    assert_eq!(task.dst, "/y");
}

#[test]
fn a_later_line_replaces_an_earlier_one() {
    let task = parse("[UPDATE]\nSRC=/a\nSRC=/b\nID=one\nID=\nDST=/d\n[END]\n").unwrap();
    assert_eq!(task.src, "/b");
    assert_eq!(task.id, "");
}

#[test]
fn a_value_may_hold_an_equals_sign() {
    let task = parse("[UPDATE]\nSRC=/a=b\nDST=/d\nID=SRC=x\n[END]\n").unwrap();
    assert_eq!(task.src, "/a=b");
    assert_eq!(task.id, "SRC=x");
}

#[test]
fn the_first_line_that_counts_must_be_a_type_tag() {
    assert_eq!(
        parse("SRC=/x\n[UPDATE]\n[END]\n"),
        Err(ParseError::NoTaskHeader(String::from("SRC=/x")))
    );
    assert_eq!(parse("[update]\n"), Err(ParseError::NoTaskHeader(String::from("[update]"))));
    assert_eq!(
        parse("  # no comment\n[UPDATE]\n"),
        Err(ParseError::NoTaskHeader(String::from("# no comment")))
    );
    assert_eq!(parse("[END]\n"), Err(ParseError::NoTaskHeader(String::from("[END]"))));
}

#[test]
fn an_unknown_line_is_refused() {
    assert_eq!(
        parse("[UPDATE]\nSRC=/x\nFOO=bar\nDST=/y\n[END]\n"),
        Err(ParseError::UnexpectedLine(String::from("FOO=bar")))
    );
    assert_eq!(
        parse("[UPDATE]\n[UPDATE]\n[END]\n"),
        Err(ParseError::UnexpectedLine(String::from("[UPDATE]")))
    );
    assert_eq!(
        parse("[BACKUP]\n #x\n[END]\n"),
        Err(ParseError::UnexpectedLine(String::from("#x")))
    );
    assert_eq!(
        parse("[BACKUP]\nsrc=/x\n[END]\n"),
        Err(ParseError::UnexpectedLine(String::from("src=/x")))
    );
}

#[test]
fn an_update_refuses_a_backup_path() {
    assert_eq!(
        parse("[UPDATE]\nSRC=/x\nDST=/y\nBPATH=/backups\n[END]\n"),
        Err(ParseError::UnexpectedBackupPath)
    );
    assert_eq!(parse("[UPDATE]\nBPATH=\n"), Err(ParseError::UnexpectedBackupPath));
    assert_eq!(
        parse_task("[UPDATE]\nSRC=/x\nDST=/y\nBPATH=/backups\n[END]\n").unwrap_err(),
        ParseError::UnexpectedBackupPath
    );
}

#[test]
fn an_update_refuses_to_compare_with_backups() {
    assert_eq!(
        parse("[UPDATE]\nSRC=/x\nDST=/y\n[COMPARE BPATH]\n[END]\n"),
        Err(ParseError::UnexpectedComparePaths)
    );
    assert_eq!(
        parse_task("# c\n[UPDATE]\n\n  [COMPARE BPATH]  \n[END]\n").unwrap_err(),
        ParseError::UnexpectedComparePaths
    );
}

#[test]
fn an_update_fails_at_once_on_a_backup_line() {
    let mut reader = LineReader::new("[UPDATE]\nBPATH=/b\nSRC=/x\nDST=/y\n[END]\n");
    assert_eq!(TaskConfig::from_reader(&mut reader), Err(ParseError::UnexpectedBackupPath));
    assert_eq!(reader.read_line(), Some("SRC=/x".chars().collect()));
}

#[test]
fn input_that_ends_inside_a_stanza_is_truncated() {
    assert_eq!(parse("[UPDATE]\nSRC=/x\nDST=/y\n"), Err(ParseError::Truncated));
    assert_eq!(parse("[BACKUP]"), Err(ParseError::Truncated));
    assert_eq!(parse("[BACKUP]\n# [END]\n\n"), Err(ParseError::Truncated));
    assert_eq!(parse_task("[UPDATE]\nSRC=/x\n").unwrap_err(), ParseError::Truncated);
}

#[test]
fn comparing_needs_a_backup_path_when_the_stanza_closes() {
    assert_eq!(
        parse("[BACKUP]\nSRC=/x\nDST=/y\n[COMPARE BPATH]\n[END]\n"),
        Err(ParseError::MissingBackupPath)
    );
    assert_eq!(
        parse("[BACKUP]\nSRC=/x\nDST=/y\n[COMPARE BPATH]\nBPATH=\n[END]\n"),
        Err(ParseError::MissingBackupPath)
    );
    let task = parse("[BACKUP]\n[COMPARE BPATH]\nSRC=/x\nDST=/y\nBPATH=/b\n[END]\n").unwrap();
    assert!(task.compare_paths);
    assert_eq!(task.backup_path, "/b");
}

#[test]
fn stanzas_are_read_one_after_the_other() {
    let mut reader = LineReader::new(
        "[UPDATE]\nSRC=/a\nDST=/b\n[END]\n\n# second\n[BACKUP]\nSRC=/c\nDST=/d\n[END]\n# end\n",
    );
    let first = TaskConfig::from_reader(&mut reader).unwrap();
    assert!(first.is_update);
    assert_eq!(first.src, "/a");
    let second = TaskConfig::from_reader(&mut reader).unwrap();
    assert!(!second.is_update);
    assert_eq!(second.src, "/c");
    assert_eq!(TaskConfig::from_reader(&mut reader), Err(ParseError::EndOfInput));
    assert_eq!(TaskConfig::from_reader(&mut reader), Err(ParseError::EndOfInput));
}

#[test]
fn the_reader_stops_behind_the_closing_line() {
    let mut reader = LineReader::new("[UPDATE]\nSRC=/a\nDST=/b\n[END]\nnext\n");
    assert!(TaskConfig::from_reader(&mut reader).is_ok());
    assert_eq!(reader.read_line(), Some("next".chars().collect()));
}

#[test]
fn reading_everything_gives_every_task() {
    let text = "[UPDATE]\nID=one\nSRC=/a\nDST=/b\n[END]\n[BACKUP]\nID=two\nSRC=/c\nDST=/d\n[END]\n";
    let tasks = read_all(text).unwrap();
    assert_eq!(tasks.len(), 2);
    assert_eq!(tasks[0].id, "one");
    assert_eq!(tasks[1].id, "two");
    assert_eq!(read_all(""), Ok(Vec::new()));
    assert_eq!(read_all("# none\n"), Ok(Vec::new()));
}

#[test]
fn reading_everything_fails_on_the_first_bad_stanza() {
    let text = "[UPDATE]\nSRC=/a\nDST=/b\n[END]\n[UPDATE]\nBPATH=/x\n[END]\n";
    assert_eq!(read_all(text), Err(ParseError::UnexpectedBackupPath));
    let text = "[UPDATE]\nSRC=/a\nDST=/b\n[END]\n[UPDATE]\nSRC=/a\n";
    assert_eq!(read_all(text), Err(ParseError::Truncated));
}

#[test]
fn strict_reading_wants_a_source() {
    assert_eq!(parse_task("[UPDATE]\nDST=/y\n[END]\n").unwrap_err(), ParseError::MissingSource);
    assert_eq!(
        parse_task("[UPDATE]\nSRC=\nDST=/y\n[END]\n").unwrap_err(),
        ParseError::MissingSource
    );
    assert_eq!(parse_task("[BACKUP]\n[END]\n").unwrap_err(), ParseError::MissingSource);
}

#[test]
fn strict_reading_wants_a_destination() {
    assert_eq!(
        parse_task("[UPDATE]\nSRC=/x\n[END]\n").unwrap_err(),
        ParseError::MissingDestination
    );
}

#[test]
fn a_task_without_a_name_gets_one() {
    let task = parse_task("[UPDATE]\nSRC=/x\nDST=/y\n[END]\n").unwrap();
    assert_eq!(task.get_id(), "New Task");
    let task = parse_task("[UPDATE]\nID=mine\nSRC=/x\nDST=/y\n[END]\n").unwrap();
    assert_eq!(task.get_id(), "mine");
}

#[test]
fn a_task_answers_for_what_it_holds() {
    let task = parse_task("[BACKUP]\nSRC=/x\nDST=/y\nBPATH=/old\n[CONFIRM]\n[COMPARE BPATH]\n[END]\n")
        .unwrap();
    assert!(!task.is_update_task());
    assert!(task.should_confirm());
    assert!(task.compares_with_backups());
    assert_eq!(task.source(), "/x");
    assert_eq!(task.destination(), "/y");
    assert_eq!(task.backup_path(), "/old");
    assert_eq!(task.get_description(), "/x -> /y");
    assert_eq!(task.config().backup_path, "/old");
    let task = parse_task("[UPDATE]\nSRC=a\nDST=b\n[END]\n").unwrap();
    assert!(task.is_update_task());
    assert!(!task.should_confirm());
    assert!(!task.compares_with_backups());
    assert_eq!(task.backup_path(), "");
    assert_eq!(task.get_description(), "a -> b");
}

#[test]
fn a_checked_task_comes_from_a_valid_definition_only() {
    let mut config = TaskConfig::default();
    assert_eq!(
        Task::from_config(config.clone()).unwrap_err(),
        rsbackup::config::ValidationError::MissingSource
    );
    config.src = String::from("/a");
    config.dst = String::from("/b");
    config.backup_path = String::from("/c");
    assert_eq!(
        Task::from_config(config.clone()).unwrap_err(),
        rsbackup::config::ValidationError::UpdateHasBackupPath
    );
    config.is_update = false;
    let task = Task::from_config(config).unwrap();
    assert_eq!(task.get_id(), "New Task");
    assert_eq!(task.backup_path(), "/c");
}

#[test]
fn every_parse_error_has_its_words() {
    assert_eq!(ParseError::EndOfInput.message(), "EOF");
    assert_eq!(
        ParseError::NoTaskHeader(String::from("oops")).message(),
        "Failed to parse configuration file. Could not find task in line 'oops'."
    );
    assert_eq!(ParseError::Truncated.message(), "Configuration ends inside a task.");
    assert_eq!(
        ParseError::UnexpectedBackupPath.message(),
        "Unexpected BPATH parameter in update task configuration."
    );
    assert_eq!(
        ParseError::UnexpectedComparePaths.message(),
        "Unexpected [COMPARE BPATH] tag in update task configuration."
    );
    assert_eq!(
        ParseError::UnexpectedLine(String::from("FOO")).message(),
        "Unexpected line 'FOO' in configuration."
    );
    assert_eq!(
        ParseError::MissingBackupPath.message(),
        "[COMPARE BPATH] specified but no backup path given."
    );
    assert_eq!(ParseError::MissingSource.message(), "No source path specified.");
    assert_eq!(ParseError::MissingDestination.message(), "No destination path specified.");
}
