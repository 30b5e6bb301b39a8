use librustbelt::entities::ReferenceInfo;
use librustbelt::sorting::{is_listed_before, sort_references};
use librustbelt::strings::{decimal, is_before, join};
use librustbelt::text::{line_content, slice_text};

#[test]
fn join_puts_the_separator_between() {
    let parts = vec!["a".to_string(), "b".to_string(), "c".to_string()];
    assert_eq!(join(&parts, ", "), "a, b, c");
    assert_eq!(join(&parts[..1].to_vec(), ", "), "a");
    assert_eq!(join(&vec![], ", "), "");
    assert_eq!(join(&vec![String::new(), String::new()], "::"), "::");
}

#[test]
fn decimal_digits_of_numbers() {
    assert_eq!(decimal(0), "0");
    assert_eq!(decimal(7), "7");
    assert_eq!(decimal(10), "10");
    assert_eq!(decimal(4096), "4096");
    assert_eq!(decimal(u64::MAX), "18446744073709551615");
}

#[test]
fn byte_strings_are_ordered_as_strings_are() {
    let words = ["", "a", "ab", "b", "B", "é", "/w/a.rs", "/w/a/b.rs", "/w/b.rs"];
    for a in words {
        for b in words {
            assert_eq!(is_before(a.as_bytes(), b.as_bytes()), a < b, "{a:?} {b:?}");
        }
    }
}

#[test]
fn slice_of_text_by_bytes() {
    assert_eq!(slice_text("hello", 1, 3).as_deref(), Some("el"));
    assert_eq!(slice_text("hello", 0, 5).as_deref(), Some("hello"));
    assert_eq!(slice_text("hello", 5, 5).as_deref(), Some(""));
    assert_eq!(slice_text("hello", 3, 2), None);
    assert_eq!(slice_text("hello", 0, 6), None);
    assert_eq!(slice_text("é", 0, 1), None);
    assert_eq!(slice_text("é", 0, 2).as_deref(), Some("é"));
}

#[test]
fn content_of_lines() {
    let text = "one\r\ntwo\n\nlast";
    assert_eq!(line_content(text, 0), "one");
    assert_eq!(line_content(text, 1), "two");
    assert_eq!(line_content(text, 2), "");
    assert_eq!(line_content(text, 3), "last");
    assert_eq!(line_content(text, 4), "");
    assert_eq!(line_content("", 0), "");
    assert_eq!(line_content("x\n", 1), "");
}

fn reference(path: &str, line: u32, column: u32, name: &str) -> ReferenceInfo {
    ReferenceInfo {
        file_path: path.to_string(),
        line,
        column,
        end_line: line,
        end_column: column + 1,
        name: name.to_string(),
        content: String::new(),
        is_definition: false,
    }
}

#[test]
fn references_are_sorted_by_path_line_and_column() {
    let unsorted = vec![
        reference("/w/b.rs", 1, 1, "f"),
        reference("/w/a.rs", 9, 1, "e"),
        reference("/w/a.rs", 2, 7, "c"),
        reference("/w/a.rs", 2, 3, "b"),
        reference("/w/a.rs", 10, 1, "first of two"),
        reference("/w/a.rs", 10, 1, "second of two"),
        reference("/w/a.rs", 1, 30, "a"),
    ];
    let sorted = sort_references(unsorted.clone());
    let names: Vec<&str> = sorted.iter().map(|r| r.name.as_str()).collect();
    assert_eq!(names, vec!["a", "b", "c", "e", "first of two", "second of two", "f"]);
    let mut expected = unsorted;
    expected.sort_by(|a, b| {
        a.file_path.cmp(&b.file_path).then(a.line.cmp(&b.line)).then(a.column.cmp(&b.column))
    });
    assert_eq!(sorted, expected);
    assert!(sort_references(vec![]).is_empty());
}

#[test]
fn listing_order_of_two_references() {
    let a = reference("/w/a.rs", 2, 3, "x");
    assert!(is_listed_before(&a, &reference("/w/a.rs", 2, 4, "x")));
    assert!(is_listed_before(&a, &reference("/w/a.rs", 3, 1, "x")));
    assert!(is_listed_before(&a, &reference("/w/b.rs", 1, 1, "x")));
    assert!(!is_listed_before(&a, &a));
    assert!(!is_listed_before(&a, &reference("/w/a.rs", 2, 2, "x")));
    assert!(!is_listed_before(&a, &reference("/w/", 9, 9, "x")));
}
