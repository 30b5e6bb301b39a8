//! Conversion between 1-based line and column pairs and byte offsets.
//!
//! The table of line starts is `ra_ap_ide::LineIndex`. What it holds is
//! named by three uninterpreted functions, gathered in a `LineTable`, and the
//! wrappers below state how each of its methods reads them.

use vstd::prelude::*;
use vstd::string::*;
use vstd::utf8::{
    is_char_boundary, is_char_boundary_iff_not_is_continuation_byte,
    is_char_boundary_start_end_of_seq, is_continuation_byte, valid_utf8,
};
use ra_ap_ide::{LineCol, LineIndex, TextSize};
use crate::error::QueryError;
use crate::text::{lemma_line_feed_ends, line_feed_ends};

verus! {

#[verifier::external_type_specification]
#[verifier::external_body]
pub struct ExLineIndex(LineIndex);

/// The offsets at which the lines after the first begin, in the order of the
/// lines: one entry for each line feed of the indexed text, the offset just
/// behind it.
pub uninterp spec fn index_starts(index: LineIndex) -> Seq<int>;

/// The length in bytes of the indexed text.
pub uninterp spec fn index_len(index: LineIndex) -> int;

/// The offsets that lie strictly inside the encoding of one character.
pub uninterp spec fn index_splits(index: LineIndex) -> Set<int>;

/// What a table of lines holds.
pub struct LineTable {
    /// Offsets at which the lines after the first begin.
    pub starts: Seq<int>,
    /// Length of the text in bytes.
    pub len: int,
    /// Offsets inside a character.
    pub splits: Set<int>,
}

/// What `index` holds.
pub open spec fn table(index: LineIndex) -> LineTable {
    LineTable {
        starts: index_starts(index),
        len: index_len(index),
        splits: index_splits(index),
    }
}

/// The table of the text `bytes`.
pub open spec fn table_of(bytes: Seq<u8>) -> LineTable {
    LineTable {
        starts: line_feed_ends(bytes),
        len: bytes.len() as int,
        splits: Set::new(|off: int| 0 <= off < bytes.len() && is_continuation_byte(bytes[off])),
    }
}

impl LineTable {
    /// Number of lines. A text that ends in a line feed has an empty last
    /// line.
    pub open spec fn line_count(self) -> int {
        self.starts.len() as int + 1
    }

    /// Offset at which the 0-based `line` begins.
    pub open spec fn line_start(self, line: int) -> int {
        if line <= 0 {
            0
        } else {
            self.starts[line - 1]
        }
    }

    /// First offset that no longer belongs to the 0-based `line`: the start
    /// of the next line, or one past the end of the text for the last line.
    pub open spec fn line_limit(self, line: int) -> int {
        if line < self.starts.len() {
            self.starts[line]
        } else {
            self.len + 1
        }
    }

    /// What holds of every table: the text is shorter than `u32::MAX`, and
    /// line starts increase strictly, are at least 1 and at most the text's
    /// length.
    pub open spec fn wf(self) -> bool {
        &&& 0 <= self.len < u32::MAX
        &&& forall|i: int| 0 <= i < self.starts.len() ==> 1 <= #[trigger] self.starts[i] <= self.len
        &&& forall|i: int, j: int|
            0 <= i < j < self.starts.len() ==> self.starts[i] < self.starts[j]
    }

    /// The byte offset `offset` is column `col` of line `line`, both
    /// 0-based.
    pub open spec fn locates(self, offset: int, line: int, col: int) -> bool {
        &&& 0 <= line < self.line_count()
        &&& 0 <= col
        &&& self.line_start(line) + col == offset
        &&& offset < self.line_limit(line)
    }

    /// The 0-based position `(line, col)` exists in the text: the line
    /// exists, the column is at most the length of the line without its line
    /// feed, and it does not fall inside a character.
    pub open spec fn in_bounds(self, line: int, col: int) -> bool {
        &&& self.locates(self.line_start(line) + col, line, col)
        &&& !self.splits.contains(self.line_start(line) + col)
    }

    /// The offset of a 1-based position: the error that `to_engine` gives,
    /// or the offset.
    pub open spec fn offset_of(self, line: u32, column: u32) -> Result<u32, QueryError> {
        if line == 0 || column == 0 {
            Err(QueryError::InvalidCoordinate)
        } else if !self.in_bounds(line - 1, column - 1) {
            Err(QueryError::OutOfBounds)
        } else {
            Ok((self.line_start(line - 1) + column - 1) as u32)
        }
    }

    /// The 1-based position of a byte offset; `None` where the offset is
    /// past the end of the text or inside a character.
    pub open spec fn position_of(self, offset: u32) -> Option<(u32, u32)> {
        if offset <= self.len && !self.splits.contains(offset as int) {
            let line = choose|line: int|
                self.locates(offset as int, line, offset - self.line_start(line));
            Some(((line + 1) as u32, (offset - self.line_start(line) + 1) as u32))
        } else {
            None
        }
    }
}

/// `LineIndex::new`: the table of `text`. The crate's source asserts that
/// the text is shorter than `u32::MAX` bytes; it then records the offset
/// behind each line feed, the length, and where the characters of more than
/// one byte lie. In UTF-8 the bytes inside such a character, behind its
/// first, are exactly the continuation bytes.
#[verifier::external_body]
fn index_new(text: &str) -> (index: LineIndex)
    requires
        text.spec_bytes().len() < u32::MAX,
    ensures
        table(index) == table_of(text.spec_bytes()),
{
    LineIndex::new(text)
}

/// `LineIndex::len`: the length of the indexed text, which is always below
/// `u32::MAX`.
#[verifier::external_body]
fn index_text_len(index: &LineIndex) -> (len: u32)
    ensures
        len == index_len(*index),
        len < u32::MAX,
{
    index.len().into()
}

/// `LineIndex::line`: the range of a 0-based line, from its start to the
/// start of the next line, or to the end of the text for the last line;
/// `None` where the text has no such line.
#[verifier::external_body]
fn index_line(index: &LineIndex, line: u32) -> (range: Option<(u32, u32)>)
    ensures
        range is Some <==> line < table(*index).line_count(),
        range matches Some((start, end)) ==> start == table(*index).line_start(line as int)
            && end == (if line < index_starts(*index).len() {
            table(*index).line_limit(line as int)
        } else {
            index_len(*index)
        }) && start <= end <= index_len(*index),
{
    index.line(line).map(|r| (r.start().into(), r.end().into()))
}

/// `LineIndex::offset`: the start of the line plus the column, whatever the
/// column; `None` where the text has no such line. The sum is made in `u32`,
/// so the inputs on which it would overflow are left out.
#[verifier::external_body]
fn index_offset(index: &LineIndex, line: u32, col: u32) -> (offset: Option<u32>)
    requires
        line < table(*index).line_count() ==> table(*index).line_start(line as int) + col
            <= u32::MAX,
    ensures
        offset is Some <==> line < table(*index).line_count(),
        offset matches Some(off) ==> off == table(*index).line_start(line as int) + col,
{
    index.offset(LineCol { line, col }).map(|o| o.into())
}

/// `LineIndex::try_line_col`: the line that holds `offset` and the distance
/// from its start; `None` where the offset is past the end of the text or
/// inside a character. Line and column are below `u32::MAX` because the
/// text is shorter than that.
#[verifier::external_body]
fn index_try_line_col(index: &LineIndex, offset: u32) -> (pos: Option<(u32, u32)>)
    ensures
        pos is Some <==> (offset <= index_len(*index) && !index_splits(*index).contains(
            offset as int,
        )),
        pos matches Some((line, col)) ==> table(*index).locates(
            offset as int,
            line as int,
            col as int,
        ) && line < u32::MAX && col < u32::MAX,
{
    index.try_line_col(TextSize::from(offset)).map(|lc| (lc.line, lc.col))
}

/// The table of lines of `text`, or `None` where the text is too long to be
/// indexed (`u32::MAX` bytes or more).
pub fn line_index_of(text: &str) -> (index: Option<LineIndex>)
    ensures
        index is Some <==> text.spec_bytes().len() < u32::MAX,
        index matches Some(i) ==> table(i) == table_of(text.spec_bytes()) && table(i).wf(),
{
    if text.as_bytes().len() < u32::MAX as usize {
        proof {
            lemma_table_of_wf(text.spec_bytes());
        }
        Some(index_new(text))
    } else {
        None
    }
}

/// Length in bytes of the indexed text.
pub fn text_len(index: &LineIndex) -> (len: u32)
    ensures
        len == index_len(*index),
{
    index_text_len(index)
}

/// Converts a 1-based line and column to a byte offset.
///
/// A line or column of 0 is `InvalidCoordinate`, and this is checked before
/// anything else. A position that does not exist in the text (no such line,
/// a column behind the end of the line, a column inside a character) is
/// `OutOfBounds`.
pub fn to_engine(index: &LineIndex, line: u32, column: u32) -> (offset: Result<u32, QueryError>)
    ensures
        offset == table(*index).offset_of(line, column),
{
    if line == 0 || column == 0 {
        return Err(QueryError::InvalidCoordinate);
    }
    let line0: u32 = line - 1;
    let col0: u32 = column - 1;
    match index_line(index, line0) {
        None => Err(QueryError::OutOfBounds),
        Some((start, end)) => {
            if col0 > end - start {
                return Err(QueryError::OutOfBounds);
            }
            let is_last = index_line(index, line0 + 1).is_none();
            if !is_last && col0 == end - start {
                // The start of the next line is not a column of this one.
                return Err(QueryError::OutOfBounds);
            }
            match index_offset(index, line0, col0) {
                None => Err(QueryError::OutOfBounds),
                Some(off) => match index_try_line_col(index, off) {
                    None => Err(QueryError::OutOfBounds),
                    Some(_) => Ok(off),
                },
            }
        },
    }
}

/// Converts a byte offset to a 1-based line and column; `None` where the
/// offset is past the end of the text or inside a character.
pub fn from_engine(index: &LineIndex, offset: u32) -> (pos: Option<(u32, u32)>)
    ensures
        pos is Some <==> (offset <= index_len(*index) && !index_splits(*index).contains(
            offset as int,
        )),
        pos matches Some((line, column)) ==> line >= 1 && column >= 1 && table(*index).locates(
            offset as int,
            line - 1,
            column - 1,
        ),
        table(*index).wf() ==> pos == table(*index).position_of(offset),
{
    match index_try_line_col(index, offset) {
        None => None,
        Some((l, c)) => {
            proof {
                if table(*index).wf() {
                    lemma_position_of(table(*index), offset, l as int, c as int);
                }
            }
            Some((l + 1, c + 1))
        },
    }
}

/// An offset that has a position in valid text lies in the text or at its
/// end and cuts no character.
pub proof fn lemma_position_on_boundary(bytes: Seq<u8>, offset: u32)
    requires
        valid_utf8(bytes),
        table_of(bytes).position_of(offset) is Some,
    ensures
        offset <= bytes.len(),
        is_char_boundary(bytes, offset as int),
{
    if offset < bytes.len() {
        assert(!table_of(bytes).splits.contains(offset as int));
        is_char_boundary_iff_not_is_continuation_byte(bytes, offset as int);
    } else {
        is_char_boundary_start_end_of_seq(bytes);
    }
}

/// The offset of a position in valid text lies in the text or at its end
/// and cuts no character.
pub proof fn lemma_offset_on_boundary(bytes: Seq<u8>, line: u32, column: u32)
    requires
        valid_utf8(bytes),
        bytes.len() < u32::MAX,
        table_of(bytes).offset_of(line, column) is Ok,
    ensures
        table_of(bytes).offset_of(line, column)->Ok_0 <= bytes.len(),
        is_char_boundary(bytes, table_of(bytes).offset_of(line, column)->Ok_0 as int),
{
    lemma_table_of_wf(bytes);
    let t = table_of(bytes);
    let offset = t.line_start(line - 1) + column - 1;
    assert(t.in_bounds(line - 1, column - 1));
    assert(offset < t.line_limit(line - 1));
    assert(offset <= bytes.len());
    if offset < bytes.len() {
        assert(!t.splits.contains(offset));
        is_char_boundary_iff_not_is_continuation_byte(bytes, offset);
    } else {
        is_char_boundary_start_end_of_seq(bytes);
    }
}

/// The table of a text shorter than `u32::MAX` bytes is well formed.
pub proof fn lemma_table_of_wf(bytes: Seq<u8>)
    requires
        bytes.len() < u32::MAX,
    ensures
        table_of(bytes).wf(),
{
    lemma_line_feed_ends(bytes);
}

/// An offset lies on one line only.
pub proof fn lemma_locates_unique(t: LineTable, offset: int, l1: int, c1: int, l2: int, c2: int)
    requires
        t.wf(),
        t.locates(offset, l1, c1),
        t.locates(offset, l2, c2),
    ensures
        l1 == l2,
        c1 == c2,
{
    if l1 < l2 {
        assert(t.line_limit(l1) <= t.line_start(l2));
    } else if l2 < l1 {
        assert(t.line_limit(l2) <= t.line_start(l1));
    }
}

/// The position of an offset is where the offset lies.
pub proof fn lemma_position_of(t: LineTable, offset: u32, line: int, col: int)
    requires
        t.wf(),
        offset <= t.len,
        !t.splits.contains(offset as int),
        t.locates(offset as int, line, col),
    ensures
        t.position_of(offset) == Some(((line + 1) as u32, (col + 1) as u32)),
{
    let l = choose|l: int| t.locates(offset as int, l, offset - t.line_start(l));
    assert(t.locates(offset as int, line, offset - t.line_start(line)));
    lemma_locates_unique(t, offset as int, l, offset - t.line_start(l), line, col);
}

/// A 1-based position with a 0 in it is never `OutOfBounds`: it is
/// `InvalidCoordinate`, whatever the text.
pub proof fn lemma_zero_is_invalid(t: LineTable, line: u32, column: u32)
    requires
        line == 0 || column == 0,
    ensures
        t.offset_of(line, column) == Err::<u32, QueryError>(QueryError::InvalidCoordinate),
{
}

/// Converting a position that exists in the text to an offset and back
/// gives the position again.
pub proof fn lemma_round_trip(t: LineTable, line: u32, column: u32)
    requires
        t.wf(),
        line >= 1,
        column >= 1,
        t.in_bounds(line - 1, column - 1),
    ensures
        t.offset_of(line, column) matches Ok(offset) && t.position_of(offset) == Some(
            (line, column),
        ),
{
    let off = t.line_start(line - 1) + column - 1;
    assert(off <= t.len);
    lemma_position_of(t, off as u32, line - 1, column - 1);
}

/// In every text shorter than `u32::MAX` bytes, converting a position that
/// exists in the text to an offset and back gives the position again.
pub proof fn lemma_round_trip_in_text(bytes: Seq<u8>, line: u32, column: u32)
    requires
        bytes.len() < u32::MAX,
        line >= 1,
        column >= 1,
        table_of(bytes).in_bounds(line - 1, column - 1),
    ensures
        table_of(bytes).offset_of(line, column) matches Ok(offset) && table_of(bytes).position_of(
            offset,
        ) == Some((line, column)),
{
    lemma_table_of_wf(bytes);
    lemma_round_trip(table_of(bytes), line, column);
}

/// Converting an offset that has a position to that position and back
/// gives the offset again.
pub proof fn lemma_round_trip_offset(t: LineTable, offset: u32)
    requires
        t.wf(),
        t.position_of(offset) is Some,
    ensures
        t.position_of(offset) matches Some((line, column)) && t.offset_of(line, column) == Ok::<
            u32,
            QueryError,
        >(offset),
{
    lemma_line_exists(t, offset as int, t.starts.len() as int);
    let l = choose|l: int| t.locates(offset as int, l, offset - t.line_start(l));
    assert(t.locates(offset as int, l, offset - t.line_start(l)));
    if t.starts.len() > 0 {
        lemma_starts_grow(t, t.starts.len() - 1);
    }
    assert(t.in_bounds(l, offset - t.line_start(l)));
}

/// The second position is the first, or stands behind it in the text.
pub open spec fn not_before(first: (u32, u32), second: (u32, u32)) -> bool {
    first.0 < second.0 || (first.0 == second.0 && first.1 <= second.1)
}

/// The line and the column of a position are 1 or more.
pub open spec fn from_one(position: (u32, u32)) -> bool {
    position.0 >= 1 && position.1 >= 1
}

/// Of two offsets that have positions, the smaller has the earlier
/// position, and both positions have a line and a column of 1 or more.
pub proof fn lemma_positions_in_order(t: LineTable, a: u32, b: u32)
    requires
        t.wf(),
        a <= b,
        t.position_of(a) is Some,
        t.position_of(b) is Some,
    ensures
        not_before(t.position_of(a)->0, t.position_of(b)->0),
        from_one(t.position_of(a)->0),
        from_one(t.position_of(b)->0),
{
    lemma_line_exists(t, a as int, t.starts.len() as int);
    lemma_line_exists(t, b as int, t.starts.len() as int);
    let la = choose|l: int| t.locates(a as int, l, a - t.line_start(l));
    let lb = choose|l: int| t.locates(b as int, l, b - t.line_start(l));
    assert(t.locates(a as int, la, a - t.line_start(la)));
    assert(t.locates(b as int, lb, b - t.line_start(lb)));
    if t.starts.len() > 0 {
        lemma_starts_grow(t, t.starts.len() - 1);
    }
    if lb < la {
        assert(t.line_limit(lb) <= t.line_start(la));
    }
}

/// The line that begins at the `i`-th line start is at least the `i + 1`-th
/// byte, so a text has at most as many line feeds as bytes.
pub proof fn lemma_starts_grow(t: LineTable, i: int)
    requires
        t.wf(),
        0 <= i < t.starts.len(),
    ensures
        i + 1 <= t.starts[i],
    decreases i,
{
    if i > 0 {
        lemma_starts_grow(t, i - 1);
    }
}

/// Every offset of the text lies on a line: on the last line that begins at
/// or before it.
pub proof fn lemma_line_exists(t: LineTable, offset: int, from: int)
    requires
        t.wf(),
        0 <= offset <= t.len,
        0 <= from <= t.starts.len(),
        offset < t.line_limit(from),
    ensures
        exists|l: int| t.locates(offset, l, offset - t.line_start(l)),
    decreases from,
{
    if t.line_start(from) <= offset {
        assert(t.locates(offset, from, offset - t.line_start(from)));
    } else {
        lemma_line_exists(t, offset, from - 1);
    }
}

} // verus!
