use librustbelt::cursor::{CursorCoordinates, TOLERANCE};

fn cursor(line: u32, column: u32, symbol: Option<&str>) -> CursorCoordinates {
    CursorCoordinates {
        file_path: "/w/a.rs".to_string(),
        line,
        column,
        symbol: symbol.map(|s| s.to_string()),
    }
}

fn place(c: &CursorCoordinates) -> (u32, u32) {
    (c.line, c.column)
}

#[test]
fn tolerance_is_five() {
    assert_eq!(TOLERANCE, 5);
}

#[test]
fn cursor_without_symbol_is_unchanged() {
    let c = cursor(2, 7, None);
    let r = c.resolve_coordinates("fn foo() {}\nfn bar() {}\n");
    assert_eq!(place(&r), (2, 7));
    assert_eq!(r.file_path, "/w/a.rs");
    assert_eq!(r.symbol, None);
}

#[test]
fn symbol_off_the_cursor_line_is_found_on_a_line_within_tolerance() {
    let text = "fn foo() {}\nfn bar() {}\nfn foo() {}";
    let r = cursor(2, 1, Some("foo")).resolve_coordinates(text);
    // Line 2 does not hold the symbol; lines 1 and 3 are equally near, and
    // the line below is visited before the line above.
    assert!(r.line == 1 || r.line == 3);
    assert_eq!(place(&r), (3, 4));
    assert_eq!(r.symbol.as_deref(), Some("foo"));
    assert_eq!(r.file_path, "/w/a.rs");
}

#[test]
fn nearer_line_wins_over_farther_line() {
    let text = "foo\n\n\nx\n\nfoo\n";
    // From line 4, "foo" is three lines up and two lines down.
    let r = cursor(4, 1, Some("foo")).resolve_coordinates(text);
    assert_eq!(place(&r), (6, 1));
    // From line 3, "foo" is two lines up and three lines down.
    let r = cursor(3, 1, Some("foo")).resolve_coordinates(text);
    assert_eq!(place(&r), (1, 1));
}

#[test]
fn symbol_absent_from_the_window_leaves_cursor_unmodified() {
    let text = "fn foo() {}\nfn bar() {}\nfn foo() {}";
    let r = cursor(2, 9, Some("zzz")).resolve_coordinates(text);
    assert_eq!(place(&r), (2, 9));
    assert_eq!(r.symbol.as_deref(), Some("zzz"));
    assert_eq!(r.file_path, "/w/a.rs");
}

#[test]
fn symbol_outside_the_window_is_not_found() {
    // "foo" stands on line 7, six lines below the cursor.
    let text = "a\nb\nc\nd\ne\nf\nfoo\n";
    let r = cursor(1, 1, Some("foo")).resolve_coordinates(text);
    assert_eq!(place(&r), (1, 1));
    // From line 2 it is five lines away, which is within the window.
    let r = cursor(2, 1, Some("foo")).resolve_coordinates(text);
    assert_eq!(place(&r), (7, 1));
}

#[test]
fn nearest_occurrence_on_the_cursor_line_is_taken() {
    let text = "let foo = foo + foo;";
    //          123456789012345678901
    assert_eq!(place(&cursor(1, 10, Some("foo")).resolve_coordinates(text)), (1, 11));
    assert_eq!(place(&cursor(1, 1, Some("foo")).resolve_coordinates(text)), (1, 5));
    assert_eq!(place(&cursor(1, 20, Some("foo")).resolve_coordinates(text)), (1, 17));
}

#[test]
fn of_two_equally_near_occurrences_the_left_one_is_taken() {
    let text = "foo  foo";
    //          12345678
    // The starts are at columns 1 and 6: column 3 is nearer to the first.
    assert_eq!(place(&cursor(1, 3, Some("foo")).resolve_coordinates(text)), (1, 1));
    let text = "ab ab";
    // Starts at 1 and 4; column 2 is nearer to 1, column 3 nearer to 4.
    assert_eq!(place(&cursor(1, 2, Some("ab")).resolve_coordinates(text)), (1, 1));
    assert_eq!(place(&cursor(1, 3, Some("ab")).resolve_coordinates(text)), (1, 4));
    let text = "a_a";
    // Starts at 1 and 3; column 2 is one column from both.
    assert_eq!(place(&cursor(1, 2, Some("a")).resolve_coordinates(text)), (1, 1));
}

#[test]
fn nearest_occurrence_beyond_tolerance_falls_back_to_leftmost() {
    let text = "foo                  foo";
    //          123456789012345678901234
    // The cursor at column 16 is six columns from the occurrence at 22 and
    // fifteen from that at 1: none is within tolerance, the leftmost is used.
    assert_eq!(place(&cursor(1, 16, Some("foo")).resolve_coordinates(text)), (1, 1));
    // At column 17 the occurrence at 22 is five columns away.
    assert_eq!(place(&cursor(1, 17, Some("foo")).resolve_coordinates(text)), (1, 22));
}

#[test]
fn off_the_cursor_line_the_leftmost_occurrence_is_taken() {
    let text = "x\n           foo foo";
    let r = cursor(1, 18, Some("foo")).resolve_coordinates(text);
    assert_eq!(place(&r), (2, 12));
}

#[test]
fn matching_is_by_substring() {
    let text = "let foobar = 1;";
    assert_eq!(place(&cursor(1, 1, Some("bar")).resolve_coordinates(text)), (1, 8));
    assert_eq!(place(&cursor(1, 1, Some("oo")).resolve_coordinates(text)), (1, 6));
}

#[test]
fn overlapping_occurrences_are_all_considered() {
    let text = "aaaa";
    assert_eq!(place(&cursor(1, 3, Some("aa")).resolve_coordinates(text)), (1, 3));
}

#[test]
fn carriage_return_before_line_feed_is_no_part_of_the_line() {
    let text = "one\r\ntwo\r\n";
    let r = cursor(1, 1, Some("\r")).resolve_coordinates(text);
    assert_eq!(place(&r), (1, 1));
    let r = cursor(1, 1, Some("two")).resolve_coordinates(text);
    assert_eq!(place(&r), (2, 1));
}

#[test]
fn cursor_far_behind_the_text_is_unchanged() {
    let text = "foo\n";
    let r = cursor(100, 1, Some("foo")).resolve_coordinates(text);
    assert_eq!(place(&r), (100, 1));
    let r = cursor(u32::MAX, u32::MAX, Some("foo")).resolve_coordinates(text);
    assert_eq!(place(&r), (u32::MAX, u32::MAX));
    let r = cursor(1, 1, Some("foo")).resolve_coordinates("");
    assert_eq!(place(&r), (1, 1));
}

#[test]
fn columns_are_counted_in_bytes() {
    let text = "é = foo";
    let r = cursor(1, 1, Some("foo")).resolve_coordinates(text);
    assert_eq!(place(&r), (1, 6));
}

#[test]
fn box_and_line_search_agree_with_resolution() {
    let c = cursor(2, 1, Some("foo"));
    let text = "fn foo() {}\nfn bar() {}\nfn foo() {}";
    let found = c.find_symbol_in_tolerance_box(text, "foo").unwrap();
    assert_eq!(place(&found), (3, 4));
    assert!(c.find_symbol_in_tolerance_box(text, "zzz").is_none());
    assert_eq!(c.find_symbol_in_line("fn foo() {}", "foo", 3), Some(4));
    assert_eq!(c.find_symbol_in_line("fn bar() {}", "foo", 2), None);
    assert_eq!(c.find_symbol_in_line("foo foo", "foo", 2), Some(1));
    assert_eq!(c.find_symbol_in_line("fo", "foo", 2), None);
}

#[test]
fn zero_based_line_and_column_saturate() {
    assert_eq!(cursor(3, 7, None).line_col(), (2, 6));
    assert_eq!(cursor(0, 0, None).line_col(), (0, 0));
    assert_eq!(cursor(1, 1, None).line_col(), (0, 0));
}
