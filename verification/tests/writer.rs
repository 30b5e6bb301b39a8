use librustbelt::entities::{FileChange, TextEdit};
use librustbelt::error::QueryError;
use librustbelt::writer::{failure, DiskWriter};

fn change(path: &str, from: u32, to: u32, new_text: &str) -> FileChange {
    FileChange {
        file_path: path.to_string(),
        edits: vec![TextEdit {
            line: 1,
            column: from,
            end_line: 1,
            end_column: to,
            new_text: new_text.to_string(),
        }],
    }
}

/// Runs the writer on files held in memory; `unwritable` names a file that
/// cannot be written.
fn run(
    files: &mut Vec<(String, String)>,
    changes: Vec<FileChange>,
    unwritable: Option<&str>,
) -> (Result<(), QueryError>, usize) {
    let mut writer = DiskWriter::new(changes);
    while let Some(path) = writer.next_read() {
        let at = files.iter().position(|(p, _)| *p == path);
        let content = match at {
            Some(i) => Ok(files[i].1.as_str()),
            None => Err("no such file".to_string()),
        };
        let written = match writer.on_read(content) {
            Ok(bytes) => bytes,
            Err(e) => return (Err(e), writer.files_written()),
        };
        let outcome = if unwritable == Some(path.as_str()) {
            Err("read-only".to_string())
        } else {
            files[at.unwrap()].1 = String::from_utf8(written).unwrap();
            Ok(())
        };
        if let Err(e) = writer.on_written(outcome) {
            return (Err(e), writer.files_written());
        }
    }
    (Ok(()), writer.files_written())
}

fn disk() -> Vec<(String, String)> {
    vec![
        ("/w/a.rs".to_string(), "aaa".to_string()),
        ("/w/b.rs".to_string(), "bbb".to_string()),
        ("/w/c.rs".to_string(), "ccc".to_string()),
    ]
}

fn contents(files: &[(String, String)]) -> Vec<&str> {
    files.iter().map(|(_, c)| c.as_str()).collect()
}

#[test]
fn empty_change_set_reads_and_writes_nothing() {
    let writer = DiskWriter::new(vec![]);
    assert_eq!(writer.next_read(), None);
    assert_eq!(writer.files_written(), 0);
    let mut files = disk();
    let (outcome, written) = run(&mut files, vec![], None);
    assert!(outcome.is_ok());
    assert_eq!(written, 0);
    assert_eq!(files, disk());
}

#[test]
fn files_are_written_in_the_order_of_the_set() {
    let mut files = disk();
    let changes = vec![change("/w/b.rs", 1, 2, "B"), change("/w/a.rs", 4, 4, "!")];
    let mut writer = DiskWriter::new(changes.clone());
    assert_eq!(writer.next_read().as_deref(), Some("/w/b.rs"));
    assert_eq!(writer.on_read(Ok("bbb")).unwrap(), b"Bbb");
    assert_eq!(writer.next_read(), None);
    writer.on_written(Ok(())).unwrap();
    assert_eq!(writer.files_written(), 1);
    assert_eq!(writer.next_read().as_deref(), Some("/w/a.rs"));
    let (outcome, written) = run(&mut files, changes, None);
    assert!(outcome.is_ok());
    assert_eq!(written, 2);
    assert_eq!(contents(&files), vec!["aaa!", "Bbb", "ccc"]);
}

#[test]
fn failed_write_keeps_earlier_files_and_stops() {
    let mut files = disk();
    let changes = vec![
        change("/w/a.rs", 1, 2, "A"),
        change("/w/b.rs", 1, 2, "B"),
        change("/w/c.rs", 1, 2, "C"),
    ];
    let (outcome, written) = run(&mut files, changes, Some("/w/b.rs"));
    assert!(matches!(outcome, Err(QueryError::IoError(text)) if text == "/w/b.rs: read-only"));
    assert_eq!(written, 1);
    assert_eq!(contents(&files), vec!["Aaa", "bbb", "ccc"]);
}

#[test]
fn failed_read_keeps_earlier_files_and_stops() {
    let mut files = disk();
    let changes = vec![
        change("/w/a.rs", 1, 2, "A"),
        change("/w/gone.rs", 1, 2, "B"),
        change("/w/c.rs", 1, 2, "C"),
    ];
    let (outcome, written) = run(&mut files, changes, None);
    assert!(matches!(outcome, Err(QueryError::IoError(text)) if text == "/w/gone.rs: no such file"));
    assert_eq!(written, 1);
    assert_eq!(contents(&files), vec!["Aaa", "bbb", "ccc"]);
}

#[test]
fn edit_that_does_not_fit_the_file_stops_the_writer() {
    let mut files = disk();
    let changes = vec![change("/w/a.rs", 2, 9, "A"), change("/w/b.rs", 1, 2, "B")];
    let mut writer = DiskWriter::new(changes.clone());
    assert!(matches!(writer.on_read(Ok("aaa")), Err(QueryError::OutOfBounds)));
    assert_eq!(writer.next_read(), None);
    assert_eq!(writer.files_written(), 0);
    let (outcome, written) = run(&mut files, changes, None);
    assert!(matches!(outcome, Err(QueryError::OutOfBounds)));
    assert_eq!(written, 0);
    assert_eq!(files, disk());
}

#[test]
fn failure_names_the_file_and_the_cause() {
    assert_eq!(failure(&"/w/a.rs".to_string(), &"denied".to_string()), "/w/a.rs: denied");
}
