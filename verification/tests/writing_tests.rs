use rsbackup::config::{TaskConfig, ValidationError};
use rsbackup::reader::LineReader;

fn full_backup() -> TaskConfig {
    TaskConfig {
        id: String::from("nightly"),
        is_update: false,
        always_confirm: true,
        src: String::from("/home"),
        dst: String::from("/mnt/backup"),
        backup_path: String::from("/mnt/old"),
        compare_paths: true,
        link_dest: vec![String::from("/l1"), String::from("/l2")],
        compare_dest: vec![String::from("/c1"), String::from("")],
        exclude_from: String::from("/etc/ex"),
        include_from: String::from("/etc/in"),
        files_from: String::from("/etc/fi"),
        exclude_others: true,
    }
}

fn round_trip(task: &TaskConfig) -> TaskConfig {
    let text = task.serialize().unwrap();
    let mut reader = LineReader::new(&text);
    let back = TaskConfig::from_reader(&mut reader).unwrap();
    assert_eq!(reader.read_line(), None);
    back
}

#[test]
fn a_bare_update_is_written_with_source_and_destination() {
    let mut task = TaskConfig::default();
    task.src = String::from("/x");
    task.dst = String::from("/y");
    assert_eq!(task.serialize().unwrap(), "[UPDATE]\nSRC=/x\nDST=/y\n[END]\n");
}

#[test]
fn a_blank_task_is_written_with_empty_paths() {
    assert_eq!(TaskConfig::default().serialize().unwrap(), "[UPDATE]\nSRC=\nDST=\n[END]\n");
}

#[test]
fn every_field_is_written_in_its_place() {
    assert_eq!(
        full_backup().serialize().unwrap(),
        "[BACKUP]\nSRC=/home\nDST=/mnt/backup\nID=nightly\nEXFR=/etc/ex\nINFR=/etc/in\n\
         FIFR=/etc/fi\nBPATH=/mnt/old\nCDST=/c1\nCDST=\nLDST=/l1\nLDST=/l2\n[EXCLUDE OTHERS]\n\
         [CONFIRM]\n[COMPARE BPATH]\n[END]\n"
    );
}

#[test]
fn comparing_without_a_backup_path_is_not_written() {
    let mut task = full_backup();
    task.backup_path = String::new();
    assert_eq!(task.serialize(), Err(ValidationError::NoBackupPathToCompare));
    task.is_update = true;
    assert_eq!(task.serialize(), Err(ValidationError::NoBackupPathToCompare));
}

#[test]
fn a_full_backup_reads_back_as_written() {
    let task = full_backup();
    assert_eq!(round_trip(&task), task);
}

#[test]
fn a_bare_update_reads_back_as_written() {
    let mut task = TaskConfig::default();
    task.src = String::from(" /x with space");
    task.dst = String::from("/y=z#");
    assert_eq!(round_trip(&task), task);
}

#[test]
fn each_single_field_reads_back_as_written() {
    let mut base = TaskConfig::default();
    base.is_update = false;
    base.src = String::from("s");
    base.dst = String::from("d");
    let mut variants = Vec::new();
    for i in 0..10 {
        let mut task = base.clone();
        match i {
            0 => task.id = String::from("[END]"),
            1 => task.exclude_from = String::from("#x"),
            2 => task.include_from = String::from("SRC=/other"),
            3 => task.files_from = String::from("f"),
            4 => task.backup_path = String::from("b"),
            5 => task.compare_dest = vec![String::from("c"), String::from("c")],
            6 => task.link_dest = vec![String::new(), String::from("l")],
            7 => task.exclude_others = true,
            8 => task.always_confirm = true,
            _ => {
                task.backup_path = String::from("b");
                task.compare_paths = true;
            }
        }
        variants.push(task);
    }
    for task in variants {
        assert_eq!(task.validate(), Ok(()));
        assert_eq!(round_trip(&task), task);
    }
}

#[test]
fn a_text_that_ends_in_white_space_does_not_read_back() {
    let mut task = TaskConfig::default();
    task.src = String::from("/data ");
    task.dst = String::from("/y");
    assert_eq!(task.validate(), Ok(()));
    let back = round_trip(&task);
    assert_eq!(back.src, "/data");
    assert_ne!(back, task);
}

#[test]
fn written_stanzas_follow_each_other_in_one_file() {
    let first = full_backup();
    let mut second = TaskConfig::default();
    second.src = String::from("/x");
    second.dst = String::from("/y");
    let text = format!("{}{}", first.serialize().unwrap(), second.serialize().unwrap());
    let mut reader = LineReader::new(&text);
    assert_eq!(TaskConfig::from_reader(&mut reader).unwrap(), first);
    assert_eq!(TaskConfig::from_reader(&mut reader).unwrap(), second);
    assert!(TaskConfig::from_reader(&mut reader).is_err());
}
