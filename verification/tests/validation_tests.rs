use rsbackup::config::{TaskConfig, ValidationError};

fn update(src: &str, dst: &str) -> TaskConfig {
    let mut task = TaskConfig::default();
    task.src = String::from(src);
    task.dst = String::from(dst);
    task
}

#[test]
fn a_new_task_is_a_blank_update() {
    let task = TaskConfig::default();
    assert!(task.is_update);
    assert!(!task.always_confirm && !task.compare_paths && !task.exclude_others);
    assert_eq!(task.id, "");
    assert_eq!(task.src, "");
    assert_eq!(task.dst, "");
    assert_eq!(task.backup_path, "");
    assert_eq!(task.exclude_from, "");
    assert_eq!(task.include_from, "");
    assert_eq!(task.files_from, "");
    assert!(task.link_dest.is_empty() && task.compare_dest.is_empty());
}

#[test]
fn a_task_with_source_and_destination_is_valid() {
    assert_eq!(update("/a", "/b").validate(), Ok(()));
}

#[test]
fn a_task_needs_a_source() {
    assert_eq!(update("", "/b").validate(), Err(ValidationError::MissingSource));
    assert_eq!(TaskConfig::default().validate(), Err(ValidationError::MissingSource));
}

#[test]
fn a_task_needs_a_destination() {
    assert_eq!(update("/a", "").validate(), Err(ValidationError::MissingDestination));
}

#[test]
fn an_update_cannot_compare_with_backups() {
    let mut task = update("/a", "/b");
    task.compare_paths = true;
    task.backup_path = String::from("/backups");
    assert_eq!(task.validate(), Err(ValidationError::UpdateComparesBackups));
}

#[test]
fn an_update_cannot_have_a_backup_path() {
    let mut task = update("/a", "/b");
    task.backup_path = String::from("/backups");
    assert_eq!(task.validate(), Err(ValidationError::UpdateHasBackupPath));
}

#[test]
fn comparing_needs_a_backup_path() {
    let mut task = update("/a", "/b");
    task.is_update = false;
    task.compare_paths = true;
    assert_eq!(task.validate(), Err(ValidationError::NoBackupPathToCompare));
    task.backup_path = String::from("/backups");
    assert_eq!(task.validate(), Ok(()));
}

#[test]
fn comparing_without_a_backup_path_fails_whatever_else_is_set() {
    for is_update in [false, true] {
        for src in ["", "/a"] {
            for dst in ["", "/b"] {
                let mut task = update(src, dst);
                task.is_update = is_update;
                task.compare_paths = true;
                assert!(task.validate().is_err());
            }
        }
    }
}

#[test]
fn a_backup_may_have_a_backup_path_without_comparing() {
    let mut task = update("/a", "/b");
    task.is_update = false;
    task.backup_path = String::from("/backups");
    assert_eq!(task.validate(), Ok(()));
}

#[test]
fn the_first_broken_rule_is_reported() {
    let mut task = update("", "");
    task.compare_paths = true;
    assert_eq!(task.validate(), Err(ValidationError::MissingSource));
    task.src = String::from("/a");
    assert_eq!(task.validate(), Err(ValidationError::MissingDestination));
    task.dst = String::from("/b");
    assert_eq!(task.validate(), Err(ValidationError::UpdateComparesBackups));
}

#[test]
fn every_reason_has_its_words() {
    assert_eq!(ValidationError::MissingSource.message(), "No source path specified");
    assert_eq!(ValidationError::MissingDestination.message(), "No destination path specified");
    assert_eq!(
        ValidationError::UpdateComparesBackups.message(),
        "Update task can't compare with backups"
    );
    assert_eq!(ValidationError::UpdateHasBackupPath.message(), "Update task can't have backup path");
    assert_eq!(ValidationError::NoBackupPathToCompare.message(), "No backup path to compare to");
}
