use librustbelt::error::QueryError;
use librustbelt::position::{from_engine, line_index_of, text_len, to_engine};

#[test]
fn zero_line_or_column_is_invalid_coordinate_not_out_of_bounds() {
    let index = line_index_of("ab\ncd").unwrap();
    assert!(matches!(to_engine(&index, 0, 1), Err(QueryError::InvalidCoordinate)));
    assert!(matches!(to_engine(&index, 1, 0), Err(QueryError::InvalidCoordinate)));
    assert!(matches!(to_engine(&index, 0, 0), Err(QueryError::InvalidCoordinate)));
    // Also where the position would be out of bounds otherwise.
    assert!(matches!(to_engine(&index, 0, 99), Err(QueryError::InvalidCoordinate)));
    assert!(matches!(to_engine(&index, 99, 0), Err(QueryError::InvalidCoordinate)));
}

#[test]
fn offsets_of_positions_in_two_lines() {
    let index = line_index_of("ab\ncd").unwrap();
    assert!(matches!(to_engine(&index, 1, 1), Ok(0)));
    assert!(matches!(to_engine(&index, 1, 2), Ok(1)));
    // The column of the line feed is the end of the line.
    assert!(matches!(to_engine(&index, 1, 3), Ok(2)));
    assert!(matches!(to_engine(&index, 2, 1), Ok(3)));
    assert!(matches!(to_engine(&index, 2, 2), Ok(4)));
    // The end of the text is a position of the last line.
    assert!(matches!(to_engine(&index, 2, 3), Ok(5)));
}

#[test]
fn column_behind_end_of_line_is_out_of_bounds() {
    let index = line_index_of("ab\ncd").unwrap();
    // The start of the next line is no column of this one.
    assert!(matches!(to_engine(&index, 1, 4), Err(QueryError::OutOfBounds)));
    assert!(matches!(to_engine(&index, 1, 5), Err(QueryError::OutOfBounds)));
    assert!(matches!(to_engine(&index, 2, 4), Err(QueryError::OutOfBounds)));
    assert!(matches!(to_engine(&index, 1, u32::MAX), Err(QueryError::OutOfBounds)));
}

#[test]
fn line_behind_end_of_text_is_out_of_bounds() {
    let index = line_index_of("ab\ncd").unwrap();
    assert!(matches!(to_engine(&index, 3, 1), Err(QueryError::OutOfBounds)));
    assert!(matches!(to_engine(&index, u32::MAX, 1), Err(QueryError::OutOfBounds)));
}

#[test]
fn text_ending_in_line_feed_has_an_empty_last_line() {
    let index = line_index_of("ab\n").unwrap();
    assert!(matches!(to_engine(&index, 2, 1), Ok(3)));
    assert!(matches!(to_engine(&index, 2, 2), Err(QueryError::OutOfBounds)));
    assert_eq!(from_engine(&index, 3), Some((2, 1)));
}

#[test]
fn empty_text_has_one_position() {
    let index = line_index_of("").unwrap();
    assert_eq!(text_len(&index), 0);
    assert!(matches!(to_engine(&index, 1, 1), Ok(0)));
    assert!(matches!(to_engine(&index, 1, 2), Err(QueryError::OutOfBounds)));
    assert_eq!(from_engine(&index, 0), Some((1, 1)));
    assert_eq!(from_engine(&index, 1), None);
}

#[test]
fn column_inside_a_character_is_out_of_bounds() {
    // "é" takes two bytes.
    let index = line_index_of("é=1").unwrap();
    assert!(matches!(to_engine(&index, 1, 1), Ok(0)));
    assert!(matches!(to_engine(&index, 1, 2), Err(QueryError::OutOfBounds)));
    assert!(matches!(to_engine(&index, 1, 3), Ok(2)));
    assert_eq!(from_engine(&index, 1), None);
    assert_eq!(from_engine(&index, 2), Some((1, 3)));
}

#[test]
fn positions_of_offsets() {
    let index = line_index_of("ab\ncd\n\nxyz").unwrap();
    assert_eq!(text_len(&index), 10);
    assert_eq!(from_engine(&index, 0), Some((1, 1)));
    assert_eq!(from_engine(&index, 2), Some((1, 3)));
    assert_eq!(from_engine(&index, 3), Some((2, 1)));
    assert_eq!(from_engine(&index, 6), Some((3, 1)));
    assert_eq!(from_engine(&index, 7), Some((4, 1)));
    assert_eq!(from_engine(&index, 10), Some((4, 4)));
    assert_eq!(from_engine(&index, 11), None);
    assert_eq!(from_engine(&index, u32::MAX), None);
}

#[test]
fn every_position_of_a_text_round_trips() {
    let text = "fn main() {\n    let héllo = 1;\r\n\n}\n";
    let index = line_index_of(text).unwrap();
    let mut seen = 0;
    for offset in 0..=text.len() as u32 {
        match from_engine(&index, offset) {
            Some((line, column)) => {
                seen += 1;
                assert!(line >= 1 && column >= 1);
                assert!(matches!(to_engine(&index, line, column), Ok(o) if o == offset));
            }
            None => assert!(!text.is_char_boundary(offset as usize)),
        }
    }
    assert_eq!(seen, text.chars().count() + 1);
    for line in 1..=6u32 {
        for column in 1..=20u32 {
            if let Ok(offset) = to_engine(&index, line, column) {
                assert_eq!(from_engine(&index, offset), Some((line, column)));
            }
        }
    }
}
