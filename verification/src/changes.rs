//! Edits to files: from the byte ranges of the engine to lines and columns,
//! and from lines and columns to the new text of a file.

use vstd::prelude::*;
use vstd::slice::*;
use vstd::string::*;
use vstd::utf8::encode_utf8;
use ra_ap_ide::LineIndex;
use crate::entities::{FileChange, TextEdit};
use crate::error::{ErrorKind, QueryError};
use crate::position::{
    from_engine, from_one, lemma_positions_in_order, line_index_of, not_before, table,
    table_of,
    to_engine, LineTable,
};
use crate::tracker::{FileHandle, FileWatcher};

verus! {

/// Replacement of the bytes from `start` up to `end` by `insert`, as the
/// engine states it.
#[derive(Debug, Clone)]
pub struct ByteEdit {
    pub start: u32,
    pub end: u32,
    pub insert: String,
}

/// The engine's edits to one file, in document order.
#[derive(Debug, Clone)]
pub struct FileEdits {
    pub file: FileHandle,
    pub edits: Vec<ByteEdit>,
}

/// An edit in lines and columns, where both ends of its range have a
/// position.
pub open spec fn edit_in_lines(t: LineTable, edit: ByteEdit) -> Option<TextEdit> {
    match (t.position_of(edit.start), t.position_of(edit.end)) {
        (Some(from), Some(to)) => Some(
            TextEdit {
                line: from.0,
                column: from.1,
                end_line: to.0,
                end_column: to.1,
                new_text: edit.insert,
            },
        ),
        _ => None,
    }
}

/// The edits of one file in lines and columns: `OutOfBounds` where an end
/// of a range has no position.
pub open spec fn edits_in_lines(t: LineTable, edits: Seq<ByteEdit>) -> Result<
    Seq<TextEdit>,
    QueryError,
> {
    if forall|i: int| 0 <= i < edits.len() ==> (#[trigger] edit_in_lines(t, edits[i])) is Some {
        Ok(Seq::new(edits.len(), |i: int| edit_in_lines(t, edits[i])->0))
    } else {
        Err(QueryError::OutOfBounds)
    }
}

/// An edit in lines and columns begins at a line and column of 1 or more
/// and does not end before it begins.
pub open spec fn edit_in_order(edit: TextEdit) -> bool {
    from_one((edit.line, edit.column)) && from_one((edit.end_line, edit.end_column))
        && not_before((edit.line, edit.column), (edit.end_line, edit.end_column))
}

/// No range of the edits `files` ends before it begins.
pub open spec fn ranges_ordered(files: Seq<FileEdits>) -> bool {
    forall|i: int, j: int|
        0 <= i < files.len() && 0 <= j < files[i].edits@.len() ==> (#[trigger] files[i].edits@[j]).start
            <= files[i].edits@[j].end
}

/// Every edit of `changes` begins at a line and column of 1 or more and
/// does not end before it begins.
pub open spec fn edits_ordered(changes: Seq<FileChange>) -> bool {
    forall|i: int, j: int|
        0 <= i < changes.len() && 0 <= j < changes[i].edits@.len() ==> edit_in_order(
            #[trigger] changes[i].edits@[j],
        )
}

/// Edits whose ranges do not end before they begin are restated as edits
/// that do not either, each at lines and columns of 1 or more.
pub proof fn lemma_edits_in_order(t: LineTable, edits: Seq<ByteEdit>)
    requires
        t.wf(),
        edits_in_lines(t, edits) is Ok,
        forall|j: int| 0 <= j < edits.len() ==> (#[trigger] edits[j]).start <= edits[j].end,
    ensures
        edits_in_lines(t, edits)->Ok_0.len() == edits.len(),
        forall|j: int|
            0 <= j < edits.len() ==> edit_in_order(#[trigger] edits_in_lines(t, edits)->Ok_0[j]),
{
    assert forall|j: int| 0 <= j < edits.len() implies edit_in_order(
        #[trigger] edits_in_lines(t, edits)->Ok_0[j],
    ) by {
        assert(edit_in_lines(t, edits[j]) is Some);
        lemma_positions_in_order(t, edits[j].start, edits[j].end);
    }
}

/// The change to one file: `UnknownFile` where the handle has no path, else
/// the path and the edits in lines and columns.
pub open spec fn file_change_of(paths: Seq<Seq<char>>, t: LineTable, edits: FileEdits) -> Result<
    (Seq<char>, Seq<TextEdit>),
    QueryError,
> {
    if edits.file.0 >= paths.len() {
        Err(QueryError::UnknownFile)
    } else {
        match edits_in_lines(t, edits.edits@) {
            Ok(converted) => Ok((paths[edits.file.0 as int], converted)),
            Err(e) => Err(e),
        }
    }
}

/// `converted` has as many edits as `edits`, with the same new texts in the
/// same order.
pub open spec fn same_texts(edits: Seq<ByteEdit>, converted: Seq<TextEdit>) -> bool {
    &&& converted.len() == edits.len()
    &&& forall|j: int|
        0 <= j < converted.len() ==> (#[trigger] converted[j]).new_text == edits[j].insert
}

/// `change` is `edits` with the path of its file in place of the handle,
/// as many edits, and the same new texts in the same order.
pub open spec fn restates(paths: Seq<Seq<char>>, edits: FileEdits, change: FileChange) -> bool {
    &&& edits.file.0 < paths.len()
    &&& change.file_path@ == paths[edits.file.0 as int]
    &&& paths.contains(change.file_path@)
    &&& same_texts(edits.edits@, change.edits@)
}

/// Restates one edit in lines and columns.
pub fn edit_to_lines(index: &LineIndex, edit: &ByteEdit) -> (converted: Option<TextEdit>)
    requires
        table(*index).wf(),
    ensures
        converted == edit_in_lines(table(*index), *edit),
{
    match from_engine(index, edit.start) {
        None => None,
        Some((line, column)) => match from_engine(index, edit.end) {
            None => None,
            Some((end_line, end_column)) => Some(
                TextEdit { line, column, end_line, end_column, new_text: edit.insert.clone() },
            ),
        },
    }
}

/// Restates the edits of one file in lines and columns, in their order.
pub fn edits_to_lines(index: &LineIndex, edits: &Vec<ByteEdit>) -> (converted: Result<
    Vec<TextEdit>,
    QueryError,
>)
    requires
        table(*index).wf(),
    ensures
        match edits_in_lines(table(*index), edits@) {
            Ok(expected) => converted matches Ok(v) && v@ == expected,
            Err(e) => converted matches Err(QueryError::OutOfBounds),
        },
        converted matches Ok(v) ==> same_texts(edits@, v@),
{
    let mut out: Vec<TextEdit> = Vec::new();
    let mut i: usize = 0;
    while i < edits.len()
        invariant
            i <= edits@.len(),
            out@.len() == i,
            table(*index).wf(),
            forall|j: int|
                0 <= j < i ==> (#[trigger] edit_in_lines(table(*index), edits@[j])) == Some(
                    out@[j],
                ),
            forall|j: int| 0 <= j < i ==> (#[trigger] out@[j]).new_text == edits@[j].insert,
        decreases edits.len() - i,
    {
        match edit_to_lines(index, &edits[i]) {
            None => {
                return Err(QueryError::OutOfBounds);
            },
            Some(e) => {
                out.push(e);
            },
        }
        i = i + 1;
    }
    proof {
        let expected = edits_in_lines(table(*index), edits@);
        assert(expected is Ok);
        assert(out@ =~= expected->Ok_0);
    }
    Ok(out)
}

/// The changes that the engine's edits amount to, one per file and in the
/// order given, with paths in place of handles and lines and columns in
/// place of offsets. `indexes` holds the table of lines of each file, in
/// the same order.
///
/// The first file whose handle has no path makes the result `UnknownFile`;
/// the first whose edits reach outside its text, `OutOfBounds`.
pub fn change_set_from_engine_edits(
    per_file: &Vec<FileEdits>,
    tracker: &FileWatcher,
    indexes: &Vec<LineIndex>,
) -> (changes: Result<Vec<FileChange>, QueryError>)
    requires
        tracker.wf(),
        indexes@.len() == per_file@.len(),
        forall|i: int| 0 <= i < indexes@.len() ==> (#[trigger] table(indexes@[i])).wf(),
    ensures
        (forall|i: int|
            0 <= i < per_file@.len() ==> (#[trigger] file_change_of(
                tracker.paths(),
                table(indexes@[i]),
                per_file@[i],
            )) is Ok) ==> (changes matches Ok(v) && v@.len() == per_file@.len() && forall|i: int|
            0 <= i < v@.len() ==> file_change_of(
                tracker.paths(),
                table(indexes@[i]),
                per_file@[i],
            ) == Ok::<(Seq<char>, Seq<TextEdit>), QueryError>(
                ((#[trigger] v@[i]).file_path@, v@[i].edits@),
            )),
        changes matches Ok(v) ==> v@.len() == per_file@.len() && forall|i: int|
            0 <= i < v@.len() ==> restates(tracker.paths(), per_file@[i], #[trigger] v@[i]),
        changes matches Ok(v) ==> forall|i: int|
            0 <= i < v@.len() ==> file_change_of(
                tracker.paths(),
                table(indexes@[i]),
                per_file@[i],
            ) == Ok::<(Seq<char>, Seq<TextEdit>), QueryError>(
                ((#[trigger] v@[i]).file_path@, v@[i].edits@),
            ),
        changes matches Err(e) ==> exists|i: int|
            0 <= i < per_file@.len() && (#[trigger] file_change_of(
                tracker.paths(),
                table(indexes@[i]),
                per_file@[i],
            )) is Err,
        changes matches Err(e) ==> e is OutOfBounds || (e is UnknownFile && exists|i: int|
            0 <= i < per_file@.len() && (#[trigger] per_file@[i]).file.0 >= tracker.paths().len()),
        forall|i: int|
            0 <= i < per_file@.len() && (#[trigger] file_change_of(
                tracker.paths(),
                table(indexes@[i]),
                per_file@[i],
            )) is Err && (forall|j: int|
                0 <= j < i ==> (#[trigger] file_change_of(
                    tracker.paths(),
                    table(indexes@[j]),
                    per_file@[j],
                )) is Ok) ==> changes == Err::<Vec<FileChange>, QueryError>(
                file_change_of(tracker.paths(), table(indexes@[i]), per_file@[i])->Err_0,
            ),
{
    let mut out: Vec<FileChange> = Vec::new();
    let mut i: usize = 0;
    while i < per_file.len()
        invariant
            i <= per_file@.len(),
            out@.len() == i,
            tracker.wf(),
            indexes@.len() == per_file@.len(),
            forall|k: int| 0 <= k < indexes@.len() ==> (#[trigger] table(indexes@[k])).wf(),
            forall|j: int|
                0 <= j < i ==> (#[trigger] file_change_of(
                    tracker.paths(),
                    table(indexes@[j]),
                    per_file@[j],
                )) == Ok::<(Seq<char>, Seq<TextEdit>), QueryError>(
                    (out@[j].file_path@, out@[j].edits@),
                ),
            forall|j: int|
                0 <= j < i ==> restates(tracker.paths(), per_file@[j], #[trigger] out@[j]),
        decreases per_file.len() - i,
    {
        let file_path = match tracker.file_path(per_file[i].file) {
            Some(path) => path,
            None => {
                assert(file_change_of(tracker.paths(), table(indexes@[i as int]), per_file@[i as int])
                    == Err::<(Seq<char>, Seq<TextEdit>), QueryError>(QueryError::UnknownFile));
                return Err(QueryError::UnknownFile);
            },
        };
        assert(table(indexes@[i as int]).wf());
        let edits = match edits_to_lines(&indexes[i], &per_file[i].edits) {
            Ok(edits) => edits,
            Err(e) => {
                assert(file_change_of(tracker.paths(), table(indexes@[i as int]), per_file@[i as int])
                    == Err::<(Seq<char>, Seq<TextEdit>), QueryError>(QueryError::OutOfBounds));
                return Err(QueryError::OutOfBounds);
            },
        };
        out.push(FileChange { file_path, edits });
        i = i + 1;
    }
    Ok(out)
}

/// A replacement in a text: the bytes from `start` up to `end` give way to
/// `insert`.
pub struct Span {
    pub start: int,
    pub end: int,
    pub insert: Seq<u8>,
}

/// The replacement that an edit stands for in the text with table `t`: the
/// error of the first end of its range that has no offset, and
/// `EngineQueryFailed` where the range ends before it starts.
pub open spec fn edit_span(t: LineTable, edit: TextEdit) -> Result<Span, ErrorKind> {
    match t.offset_of(edit.line, edit.column) {
        Err(e) => Err(e.kind()),
        Ok(start) => match t.offset_of(edit.end_line, edit.end_column) {
            Err(e) => Err(e.kind()),
            Ok(end) => if start <= end {
                Ok(Span { start: start as int, end: end as int, insert: encode_utf8(edit.new_text@) })
            } else {
                Err(ErrorKind::EngineQueryFailed)
            },
        },
    }
}

/// The replacements that a list of edits stands for, none of which may
/// begin before `floor`: the error of the first edit that has none, and
/// `EngineQueryFailed` at the first edit that begins before its predecessor
/// ends.
pub open spec fn edit_spans(t: LineTable, edits: Seq<TextEdit>, floor: int) -> Result<
    Seq<Span>,
    ErrorKind,
>
    decreases edits.len(),
{
    if edits.len() == 0 {
        Ok(Seq::empty())
    } else {
        match edit_span(t, edits[0]) {
            Err(e) => Err(e),
            Ok(span) => if span.start < floor {
                Err(ErrorKind::EngineQueryFailed)
            } else {
                match edit_spans(t, edits.drop_first(), span.end) {
                    Err(e) => Err(e),
                    Ok(rest) => Ok(seq![span] + rest),
                }
            },
        }
    }
}

/// Each replacement lies between `floor` and `len`, and none begins before
/// its predecessor ends.
pub open spec fn in_order(spans: Seq<Span>, floor: int, len: int) -> bool {
    &&& forall|i: int|
        0 <= i < spans.len() ==> floor <= (#[trigger] spans[i]).start <= spans[i].end <= len
    &&& forall|i: int, j: int|
        0 <= i < j < spans.len() ==> (#[trigger] spans[i]).end <= (#[trigger] spans[j]).start
}

/// The text from `from` on with all replacements made at once: what lies
/// between them stays, and each range gives way to its insert.
pub open spec fn spliced(text: Seq<u8>, spans: Seq<Span>, from: int) -> Seq<u8>
    decreases spans.len(),
{
    if spans.len() == 0 {
        text.subrange(from, text.len() as int)
    } else {
        text.subrange(from, spans[0].start) + spans[0].insert + spliced(
            text,
            spans.drop_first(),
            spans[0].end,
        )
    }
}

/// The text with one replacement made.
pub open spec fn replaced(text: Seq<u8>, span: Span) -> Seq<u8> {
    text.subrange(0, span.start) + span.insert + text.subrange(span.end, text.len() as int)
}

/// The text with the replacements made one after the other, the last
/// first, each at the offsets it has in the text before any was made.
pub open spec fn applied_back_to_front(text: Seq<u8>, spans: Seq<Span>) -> Seq<u8>
    decreases spans.len(),
{
    if spans.len() == 0 {
        text
    } else {
        replaced(applied_back_to_front(text, spans.drop_first()), spans[0])
    }
}

/// The new text of a file: the error of its edits, or the text with all of
/// them made. A text of `u32::MAX` bytes or more has no positions, so any
/// edit to it is `OutOfBounds`.
pub open spec fn changed_text(text: Seq<u8>, edits: Seq<TextEdit>) -> Result<Seq<u8>, ErrorKind> {
    if text.len() >= u32::MAX {
        if edits.len() == 0 {
            Ok(text)
        } else {
            Err(ErrorKind::OutOfBounds)
        }
    } else {
        match edit_spans(table_of(text), edits, 0) {
            Err(e) => Err(e),
            Ok(spans) => Ok(spliced(text, spans, 0)),
        }
    }
}

/// The part of the replacements that a scan of the edits has found so far.
pub open spec fn found_spans(t: LineTable, edits: Seq<TextEdit>, ranges: Seq<(usize, usize)>) -> Seq<
    Span,
> {
    Seq::new(
        ranges.len(),
        |j: int|
            Span {
                start: ranges[j].0 as int,
                end: ranges[j].1 as int,
                insert: encode_utf8(edits[j].new_text@),
            },
    )
}

/// What a scan that has found `found` expects of the edits that are left.
pub open spec fn scan_outcome(found: Seq<Span>, left: Result<Seq<Span>, ErrorKind>) -> Result<
    Seq<Span>,
    ErrorKind,
> {
    match left {
        Err(e) => Err(e),
        Ok(rest) => Ok(found + rest),
    }
}

/// The byte ranges that the edits replace, in the order of the edits.
pub fn edit_ranges(index: &LineIndex, edits: &Vec<TextEdit>) -> (ranges: Result<
    Vec<(usize, usize)>,
    QueryError,
>)
    requires
        table(*index).wf(),
    ensures
        match edit_spans(table(*index), edits@, 0) {
            Ok(spans) => ranges matches Ok(v) && spans == found_spans(table(*index), edits@, v@)
                && v@.len() == edits@.len(),
            Err(kind) => ranges matches Err(e) && e.kind() == kind,
        },
{
    let ghost t = table(*index);
    let mut out: Vec<(usize, usize)> = Vec::new();
    let mut floor: u32 = 0;
    let mut i: usize = 0;
    proof {
        assert(edits@.skip(0) =~= edits@);
        assert(found_spans(t, edits@, out@) + Seq::<Span>::empty() =~= found_spans(
            t,
            edits@,
            out@,
        ));
        match edit_spans(t, edits@, 0) {
            Ok(all) => {
                assert(Seq::<Span>::empty() + all =~= all);
            },
            Err(_) => {},
        }
    }
    while i < edits.len()
        invariant
            i <= edits@.len(),
            out@.len() == i,
            t == table(*index),
            t.wf(),
            edit_spans(t, edits@, 0) == scan_outcome(
                found_spans(t, edits@, out@),
                edit_spans(t, edits@.skip(i as int), floor as int),
            ),
        decreases edits.len() - i,
    {
        let ghost left = edits@.skip(i as int);
        let ghost before = found_spans(t, edits@, out@);
        proof {
            assert(left[0] == edits@[i as int]);
            assert(left.drop_first() =~= edits@.skip(i + 1));
        }
        let edit = &edits[i];
        let start = match to_engine(index, edit.line, edit.column) {
            Ok(offset) => offset,
            Err(e) => {
                return Err(e);
            },
        };
        let end = match to_engine(index, edit.end_line, edit.end_column) {
            Ok(offset) => offset,
            Err(e) => {
                return Err(e);
            },
        };
        if start > end || start < floor {
            return Err(QueryError::engine("edits overlap or are out of order"));
        }
        out.push((start as usize, end as usize));
        proof {
            let span = edit_span(t, edits@[i as int])->Ok_0;
            let after = found_spans(t, edits@, out@);
            assert(after =~= before.push(span));
            match edit_spans(t, edits@.skip(i + 1), end as int) {
                Ok(rest) => {
                    assert(before + (seq![span] + rest) =~= after + rest);
                },
                Err(_) => {},
            }
        }
        floor = end;
        i = i + 1;
    }
    proof {
        assert(found_spans(t, edits@, out@) + Seq::<Span>::empty() =~= found_spans(
            t,
            edits@,
            out@,
        ));
    }
    Ok(out)
}

/// Appends the bytes of `source` from `from` up to `to`.
fn append_bytes(out: &mut Vec<u8>, source: &[u8], from: usize, to: usize)
    requires
        from <= to <= source@.len(),
    ensures
        final(out)@ == old(out)@ + source@.subrange(from as int, to as int),
{
    let mut i: usize = from;
    while i < to
        invariant
            from <= i <= to <= source@.len(),
            out@ == old(out)@ + source@.subrange(from as int, i as int),
        decreases to - i,
    {
        out.push(source[i]);
        i = i + 1;
        assert(out@ =~= old(out)@ + source@.subrange(from as int, i as int));
    }
    assert(out@ =~= old(out)@ + source@.subrange(from as int, to as int));
}

/// The text with the bytes from `start` up to `end` replaced by `insert`.
pub fn replace_range(text: &Vec<u8>, start: usize, end: usize, insert: &[u8]) -> (out: Vec<u8>)
    requires
        start <= end <= text@.len(),
    ensures
        out@ == replaced(text@, Span { start: start as int, end: end as int, insert: insert@ }),
{
    let mut out: Vec<u8> = Vec::new();
    append_bytes(&mut out, text.as_slice(), 0, start);
    append_bytes(&mut out, insert, 0, insert.len());
    append_bytes(&mut out, text.as_slice(), end, text.len());
    proof {
        assert(insert@.subrange(0, insert@.len() as int) =~= insert@);
        assert(out@ =~= text@.subrange(0, start as int) + insert@ + text@.subrange(
            end as int,
            text@.len() as int,
        ));
    }
    out
}

/// The new text of the file whose text is `content`, with the edits of
/// `change` made.
///
/// Positions are resolved against `content`, so every edit speaks of the
/// text before any edit was made. The edits must come in document order:
/// each range must end at or behind its start, and none may begin before
/// its predecessor ends, else the result is `EngineQueryFailed`. They are
/// made from the last to the first, so that no edit moves the text that an
/// edit still to come speaks of.
pub fn apply_file_change(content: &str, change: &FileChange) -> (new_text: Result<
    Vec<u8>,
    QueryError,
>)
    ensures
        match changed_text(content.spec_bytes(), change.edits@) {
            Ok(text) => new_text matches Ok(v) && v@ == text,
            Err(kind) => new_text matches Err(e) && e.kind() == kind,
        },
{
    let bytes = content.as_bytes();
    let ghost text = bytes@;
    if change.edits.len() == 0 {
        proof {
            lemma_no_edits_no_change(text);
            assert(change.edits@ =~= Seq::<TextEdit>::empty());
        }
        return Ok(slice_to_vec(bytes));
    }
    let index = match line_index_of(content) {
        Some(index) => index,
        None => {
            return Err(QueryError::OutOfBounds);
        },
    };
    let ghost t = table(index);
    let ranges = match edit_ranges(&index, &change.edits) {
        Ok(ranges) => ranges,
        Err(e) => {
            return Err(e);
        },
    };
    let ghost spans = edit_spans(t, change.edits@, 0)->Ok_0;
    proof {
        lemma_edit_spans_in_order(t, change.edits@, 0);
        assert(spans.skip(spans.len() as int) =~= Seq::<Span>::empty());
        assert(text.subrange(0, text.len() as int) =~= text);
    }
    let mut buffer: Vec<u8> = slice_to_vec(bytes);
    let mut i: usize = ranges.len();
    while i > 0
        invariant
            i <= ranges@.len(),
            ranges@.len() == change.edits@.len(),
            text.len() == t.len,
            spans == found_spans(t, change.edits@, ranges@),
            in_order(spans, 0, text.len() as int),
            buffer@ == spliced(text, spans.skip(i as int), 0),
        decreases i,
    {
        i = i - 1;
        let (start, end) = ranges[i];
        let insert = change.edits[i].new_text.as_str().as_bytes();
        proof {
            let rest = spans.skip(i + 1);
            let first = spans[i as int];
            assert(in_order(rest, first.end, text.len() as int)) by {
                assert forall|j: int| 0 <= j < rest.len() implies first.end <= (
                #[trigger] rest[j]).start <= rest[j].end <= text.len() by {
                    assert(rest[j] == spans[i + 1 + j]);
                }
                assert forall|j: int, k: int| 0 <= j < k < rest.len() implies (
                #[trigger] rest[j]).end <= (#[trigger] rest[k]).start by {
                    assert(rest[j] == spans[i + 1 + j]);
                    assert(rest[k] == spans[i + 1 + k]);
                }
            }
            lemma_spliced_prefix(text, rest, 0, first.end);
            lemma_replace_in_spliced(text, first, rest);
            assert(seq![first] + rest =~= spans.skip(i as int));
            assert(first.insert == insert@);
        }
        buffer = replace_range(&buffer, start, end, insert);
    }
    proof {
        assert(spans.skip(0) =~= spans);
    }
    Ok(buffer)
}

/// A text without edits stays as it is.
pub proof fn lemma_no_edits_no_change(text: Seq<u8>)
    ensures
        changed_text(text, Seq::<TextEdit>::empty()) == Ok::<Seq<u8>, ErrorKind>(text),
{
    assert(text.subrange(0, text.len() as int) =~= text);
}

/// The replacements of edits that have them are in order and lie in the
/// text.
pub proof fn lemma_edit_spans_in_order(t: LineTable, edits: Seq<TextEdit>, floor: int)
    requires
        t.wf(),
        0 <= floor,
    ensures
        edit_spans(t, edits, floor) matches Ok(spans) ==> spans.len() == edits.len() && in_order(
            spans,
            floor,
            t.len,
        ) && forall|i: int|
            0 <= i < spans.len() ==> edit_span(t, edits[i]) == Ok::<Span, ErrorKind>(
                #[trigger] spans[i],
            ),
    decreases edits.len(),
{
    if edits.len() > 0 {
        if let Ok(span) = edit_span(t, edits[0]) {
            if span.start >= floor {
                lemma_edit_spans_in_order(t, edits.drop_first(), span.end);
                if let Ok(rest) = edit_spans(t, edits.drop_first(), span.end) {
                    let spans = seq![span] + rest;
                    assert forall|i: int| 0 <= i < spans.len() implies edit_span(t, edits[i])
                        == Ok::<Span, ErrorKind>(#[trigger] spans[i]) by {
                        if i > 0 {
                            assert(spans[i] == rest[i - 1]);
                            assert(edits.drop_first()[i - 1] == edits[i]);
                        }
                    }
                    assert forall|i: int, j: int| 0 <= i < j < spans.len() implies (
                    #[trigger] spans[i]).end <= (#[trigger] spans[j]).start by {
                        assert(spans[j] == rest[j - 1]);
                        if i > 0 {
                            assert(spans[i] == rest[i - 1]);
                        }
                    }
                    assert forall|i: int| 0 <= i < spans.len() implies floor <= (
                    #[trigger] spans[i]).start <= spans[i].end <= t.len by {
                        if i > 0 {
                            assert(spans[i] == rest[i - 1]);
                        }
                    }
                }
            }
        }
    }
}

/// Before the first replacement the spliced text is the text itself.
pub proof fn lemma_spliced_prefix(text: Seq<u8>, spans: Seq<Span>, from: int, cut: int)
    requires
        0 <= from <= cut,
        in_order(spans, cut, text.len() as int),
        cut <= text.len(),
    ensures
        spliced(text, spans, from) == text.subrange(from, cut) + spliced(text, spans, cut),
{
    if spans.len() == 0 {
        assert(text.subrange(from, text.len() as int) =~= text.subrange(from, cut)
            + text.subrange(cut, text.len() as int));
    } else {
        assert(text.subrange(from, spans[0].start) =~= text.subrange(from, cut) + text.subrange(
            cut,
            spans[0].start,
        ));
        assert(spliced(text, spans, from) =~= text.subrange(from, cut) + spliced(text, spans, cut));
    }
}

/// Making one replacement in a text in which all later ones are made
/// already gives the text with all of them made.
pub proof fn lemma_replace_in_spliced(text: Seq<u8>, first: Span, rest: Seq<Span>)
    requires
        0 <= first.start <= first.end <= text.len(),
        in_order(rest, first.end, text.len() as int),
    ensures
        replaced(spliced(text, rest, 0), first) == spliced(text, seq![first] + rest, 0),
{
    let all = seq![first] + rest;
    let done = spliced(text, rest, 0);
    lemma_spliced_prefix(text, rest, 0, first.end);
    let tail = spliced(text, rest, first.end);
    assert(done == text.subrange(0, first.end) + tail);
    assert(done.subrange(0, first.start) =~= text.subrange(0, first.start));
    assert(done.subrange(first.end, done.len() as int) =~= tail);
    assert(all.drop_first() =~= rest);
    assert(all[0] == first);
}

/// Making the replacements one after the other, the last first, gives the
/// text with all of them made at once.
pub proof fn lemma_back_to_front_is_splice(text: Seq<u8>, spans: Seq<Span>)
    requires
        in_order(spans, 0, text.len() as int),
    ensures
        applied_back_to_front(text, spans) == spliced(text, spans, 0),
    decreases spans.len(),
{
    if spans.len() == 0 {
        assert(text.subrange(0, text.len() as int) =~= text);
    } else {
        let rest = spans.drop_first();
        assert(in_order(rest, spans[0].end, text.len() as int)) by {
            assert forall|i: int| 0 <= i < rest.len() implies spans[0].end <= (
            #[trigger] rest[i]).start <= rest[i].end <= text.len() by {
                assert(rest[i] == spans[i + 1]);
            }
            assert forall|i: int, j: int| 0 <= i < j < rest.len() implies (#[trigger] rest[i]).end
                <= (#[trigger] rest[j]).start by {
                assert(rest[i] == spans[i + 1]);
                assert(rest[j] == spans[j + 1]);
            }
        }
        assert(in_order(rest, 0, text.len() as int));
        lemma_back_to_front_is_splice(text, rest);
        lemma_replace_in_spliced(text, spans[0], rest);
        assert(seq![spans[0]] + rest =~= spans);
    }
}

} // verus!
