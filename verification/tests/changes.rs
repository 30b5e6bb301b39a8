use librustbelt::changes::{
    apply_file_change, change_set_from_engine_edits, edit_to_lines, replace_range, ByteEdit,
    FileEdits,
};
use librustbelt::entities::{FileChange, TextEdit};
use librustbelt::error::{ErrorKind, QueryError};
use librustbelt::position::line_index_of;
use librustbelt::tracker::{FileHandle, FileWatcher};

fn edit(line: u32, column: u32, end_line: u32, end_column: u32, new_text: &str) -> TextEdit {
    TextEdit { line, column, end_line, end_column, new_text: new_text.to_string() }
}

fn change(edits: Vec<TextEdit>) -> FileChange {
    FileChange { file_path: "/w/a.rs".to_string(), edits }
}

fn applied(text: &str, edits: Vec<TextEdit>) -> String {
    String::from_utf8(apply_file_change(text, &change(edits)).unwrap()).unwrap()
}

fn failure(text: &str, edits: Vec<TextEdit>) -> ErrorKind {
    apply_file_change(text, &change(edits)).unwrap_err().error_kind()
}

#[test]
fn empty_change_leaves_text_identical() {
    for text in ["", "a", "fn main() {}\n", "é\r\n\n", "no line feed at end"] {
        assert_eq!(apply_file_change(text, &change(vec![])).unwrap(), text.as_bytes());
    }
}

#[test]
fn two_edits_equal_the_splice_at_offsets_before_any_edit() {
    let text = "0123456789abcdefghijKLMNOP";
    // Replace bytes [0, 5) by nothing and insert at byte 20.
    let edits = vec![edit(1, 1, 1, 6, ""), edit(1, 21, 1, 21, "<>")];
    let mut expected = String::new();
    expected.push_str(&text[5..20]);
    expected.push_str("<>");
    expected.push_str(&text[20..]);
    assert_eq!(applied(text, edits), expected);
    assert_eq!(expected, "56789abcdefghij<>KLMNOP");
}

#[test]
fn edits_are_resolved_against_the_text_before_any_edit() {
    let text = "aaa\nbbb\nccc\n";
    let edits = vec![
        edit(1, 1, 1, 4, "a-much-longer-first-line"),
        edit(2, 1, 2, 4, ""),
        edit(3, 2, 3, 3, "C"),
    ];
    assert_eq!(applied(text, edits), "a-much-longer-first-line\n\ncCc\n");
}

#[test]
fn edit_may_span_lines_and_insert_at_the_end() {
    let text = "one\ntwo\nthree";
    assert_eq!(applied(text, vec![edit(1, 3, 3, 3, "|")]), "on|ree");
    assert_eq!(applied(text, vec![edit(3, 6, 3, 6, "!\n")]), "one\ntwo\nthree!\n");
    assert_eq!(applied(text, vec![edit(1, 1, 3, 6, "")]), "");
}

#[test]
fn insertions_at_one_place_keep_their_order() {
    assert_eq!(applied("xy", vec![edit(1, 2, 1, 2, "a"), edit(1, 2, 1, 2, "b")]), "xaby");
}

#[test]
fn adjacent_edits_are_in_order() {
    assert_eq!(applied("abcd", vec![edit(1, 1, 1, 3, "X"), edit(1, 3, 1, 5, "Y")]), "XY");
}

#[test]
fn overlapping_or_unordered_edits_are_refused() {
    let text = "abcdef";
    assert_eq!(
        failure(text, vec![edit(1, 1, 1, 4, "X"), edit(1, 3, 1, 5, "Y")]),
        ErrorKind::EngineQueryFailed
    );
    assert_eq!(
        failure(text, vec![edit(1, 5, 1, 6, "X"), edit(1, 1, 1, 2, "Y")]),
        ErrorKind::EngineQueryFailed
    );
    // A range that ends before it starts.
    assert_eq!(failure(text, vec![edit(1, 4, 1, 2, "X")]), ErrorKind::EngineQueryFailed);
}

#[test]
fn edit_outside_the_text_is_out_of_bounds() {
    assert_eq!(failure("abc", vec![edit(1, 1, 1, 5, "")]), ErrorKind::OutOfBounds);
    assert_eq!(failure("abc", vec![edit(2, 1, 2, 1, "")]), ErrorKind::OutOfBounds);
    assert_eq!(failure("é", vec![edit(1, 2, 1, 3, "")]), ErrorKind::OutOfBounds);
}

#[test]
fn edit_with_zero_coordinate_is_invalid_coordinate() {
    assert_eq!(failure("abc", vec![edit(0, 1, 1, 2, "")]), ErrorKind::InvalidCoordinate);
    assert_eq!(failure("abc", vec![edit(1, 1, 1, 0, "")]), ErrorKind::InvalidCoordinate);
    // The first edit that fails decides.
    assert_eq!(
        failure("abc", vec![edit(1, 9, 1, 9, ""), edit(0, 1, 1, 2, "")]),
        ErrorKind::OutOfBounds
    );
}

#[test]
fn replace_range_splices() {
    assert_eq!(replace_range(&b"hello world".to_vec(), 0, 5, b"bye"), b"bye world");
    assert_eq!(replace_range(&b"abc".to_vec(), 3, 3, b"d"), b"abcd");
    assert_eq!(replace_range(&b"abc".to_vec(), 1, 2, b""), b"ac");
}

#[test]
fn byte_edit_is_restated_in_lines_and_columns() {
    let index = line_index_of("ab\ncd\n").unwrap();
    let e = ByteEdit { start: 4, end: 5, insert: "D".to_string() };
    let converted = edit_to_lines(&index, &e).unwrap();
    assert_eq!(
        (converted.line, converted.column, converted.end_line, converted.end_column),
        (2, 2, 2, 3)
    );
    assert_eq!(converted.new_text, "D");
    let e = ByteEdit { start: 4, end: 7, insert: String::new() };
    assert!(edit_to_lines(&index, &e).is_none());
}

fn two_files() -> FileWatcher {
    let mut watcher = FileWatcher::new();
    assert_eq!(watcher.get_or_create_handle("/w/a.rs"), FileHandle(0));
    assert_eq!(watcher.get_or_create_handle("/w/b.rs"), FileHandle(1));
    watcher
}

#[test]
fn engine_edits_become_changes_by_path() {
    let watcher = two_files();
    let per_file = vec![
        FileEdits {
            file: FileHandle(1),
            edits: vec![
                ByteEdit { start: 0, end: 1, insert: "X".to_string() },
                ByteEdit { start: 3, end: 3, insert: "Y".to_string() },
            ],
        },
        FileEdits { file: FileHandle(0), edits: vec![] },
    ];
    let indexes = vec![line_index_of("ab\ncd").unwrap(), line_index_of("").unwrap()];
    let changes = change_set_from_engine_edits(&per_file, &watcher, &indexes).unwrap();
    assert_eq!(changes.len(), 2);
    assert_eq!(changes[0].file_path, "/w/b.rs");
    assert_eq!(changes[0].edits.len(), 2);
    let first = &changes[0].edits[0];
    assert_eq!((first.line, first.column, first.end_line, first.end_column), (1, 1, 1, 2));
    assert_eq!(first.new_text, "X");
    let second = &changes[0].edits[1];
    assert_eq!((second.line, second.column, second.end_line, second.end_column), (2, 1, 2, 1));
    assert_eq!(second.new_text, "Y");
    assert_eq!(changes[1].file_path, "/w/a.rs");
    assert!(changes[1].edits.is_empty());
}

#[test]
fn engine_edits_of_unknown_file_are_unknown_file() {
    let watcher = two_files();
    let per_file = vec![FileEdits { file: FileHandle(2), edits: vec![] }];
    let indexes = vec![line_index_of("").unwrap()];
    let changes = change_set_from_engine_edits(&per_file, &watcher, &indexes);
    assert!(matches!(changes, Err(QueryError::UnknownFile)));
}

#[test]
fn engine_edits_outside_the_text_are_out_of_bounds() {
    let watcher = two_files();
    let per_file = vec![FileEdits {
        file: FileHandle(0),
        edits: vec![ByteEdit { start: 1, end: 9, insert: String::new() }],
    }];
    let indexes = vec![line_index_of("abc").unwrap()];
    let changes = change_set_from_engine_edits(&per_file, &watcher, &indexes);
    assert!(matches!(changes, Err(QueryError::OutOfBounds)));
}

#[test]
fn no_engine_edits_are_no_changes() {
    let watcher = two_files();
    let changes = change_set_from_engine_edits(&vec![], &watcher, &vec![]).unwrap();
    assert!(changes.is_empty());
}
