//! Texts as sequences of bytes: where their lines lie, and where one
//! sequence of bytes occurs in another.

use vstd::prelude::*;
use vstd::slice::*;
use vstd::string::*;
use vstd::utf8::{
    decode_utf8, encode_utf8, encode_utf8_decode_utf8, encode_utf8_valid_utf8, is_char_boundary,
    is_char_boundary_iff_not_is_continuation_byte, is_char_boundary_start_end_of_seq, valid_utf8,
    valid_utf8_split,
};

verus! {

/// The offsets just behind each line feed of `bytes`, in increasing order.
pub open spec fn line_feed_ends(bytes: Seq<u8>) -> Seq<int>
    decreases bytes.len(),
{
    if bytes.len() == 0 {
        Seq::empty()
    } else if bytes.last() == 10u8 {
        line_feed_ends(bytes.drop_last()).push(bytes.len() as int)
    } else {
        line_feed_ends(bytes.drop_last())
    }
}

/// Offset at which the 0-based line `i` of `bytes` begins.
pub open spec fn text_line_start(bytes: Seq<u8>, i: int) -> int {
    if i <= 0 {
        0
    } else {
        line_feed_ends(bytes)[i - 1]
    }
}

/// Number of lines of `bytes`, where a line ends at a line feed or at the
/// end of the text, and a text that ends in a line feed has no further,
/// empty line behind it. The empty text has no line.
pub open spec fn text_line_count(bytes: Seq<u8>) -> int {
    let ends = line_feed_ends(bytes);
    if text_line_start(bytes, ends.len() as int) < bytes.len() {
        ends.len() as int + 1
    } else {
        ends.len() as int
    }
}

/// Offset at which the content of the 0-based line `i` ends: before its
/// line feed, and before the carriage return in front of that line feed if
/// there is one. A last line without line feed ends with the text.
pub open spec fn text_line_end(bytes: Seq<u8>, i: int) -> int {
    let ends = line_feed_ends(bytes);
    if 0 <= i < ends.len() {
        let feed = ends[i] - 1;
        if feed > text_line_start(bytes, i) && bytes[feed - 1] == 13u8 {
            feed - 1
        } else {
            feed
        }
    } else {
        bytes.len() as int
    }
}

/// Content of the 0-based line `i`, without its line ending.
pub open spec fn text_line(bytes: Seq<u8>, i: int) -> Seq<u8> {
    bytes.subrange(text_line_start(bytes, i), text_line_end(bytes, i))
}

/// `symbol` stands in `line` at offset `p`.
pub open spec fn occurs_at(line: Seq<u8>, symbol: Seq<u8>, p: int) -> bool {
    &&& 0 <= p
    &&& p + symbol.len() <= line.len()
    &&& line.subrange(p, p + symbol.len()) == symbol
}

/// `symbol` stands somewhere in `line`.
pub open spec fn occurs(line: Seq<u8>, symbol: Seq<u8>) -> bool {
    exists|p: int| occurs_at(line, symbol, p)
}

/// `p` is the leftmost offset at which `symbol` stands in `line`.
pub open spec fn is_first_occurrence(line: Seq<u8>, symbol: Seq<u8>, p: int) -> bool {
    &&& occurs_at(line, symbol, p)
    &&& forall|q: int| occurs_at(line, symbol, q) ==> p <= q
}

/// Distance between the 1-based column of offset `p` and `column`.
pub open spec fn column_distance(p: int, column: int) -> int {
    if p + 1 >= column {
        p + 1 - column
    } else {
        column - (p + 1)
    }
}

/// `p` is the offset at which `symbol` stands in `line` whose column is
/// closest to `column`; of two equally close, the left one.
pub open spec fn is_nearest_occurrence(line: Seq<u8>, symbol: Seq<u8>, column: int, p: int) -> bool {
    &&& occurs_at(line, symbol, p)
    &&& forall|q: int|
        #[trigger] occurs_at(line, symbol, q) ==> column_distance(p, column) < column_distance(
            q,
            column,
        )
            || (column_distance(p, column) == column_distance(q, column) && p <= q)
}

/// Properties of the line feed offsets: each lies in the text directly
/// behind a line feed, they increase strictly, and every line feed has its
/// entry.
pub proof fn lemma_line_feed_ends(bytes: Seq<u8>)
    ensures
        line_feed_ends(bytes).len() <= bytes.len(),
        forall|i: int|
            0 <= i < line_feed_ends(bytes).len() ==> 1 <= #[trigger] line_feed_ends(bytes)[i]
                <= bytes.len() && bytes[line_feed_ends(bytes)[i] - 1] == 10u8,
        forall|i: int, j: int|
            0 <= i < j < line_feed_ends(bytes).len() ==> line_feed_ends(bytes)[i]
                < line_feed_ends(bytes)[j],
        forall|k: int|
            0 <= k < bytes.len() && bytes[k] == 10u8 ==> line_feed_ends(bytes).contains(k + 1),
        forall|i: int|
            0 <= i < line_feed_ends(bytes).len() ==> i + 1 <= #[trigger] line_feed_ends(bytes)[i],
    decreases bytes.len(),
{
    if bytes.len() > 0 {
        let rest = bytes.drop_last();
        lemma_line_feed_ends(rest);
        let ends = line_feed_ends(bytes);
        let prev = line_feed_ends(rest);
        assert forall|k: int| 0 <= k < bytes.len() && bytes[k] == 10u8 implies ends.contains(
            k + 1,
        ) by {
            if k < rest.len() {
                assert(rest[k] == bytes[k]);
                assert(prev.contains(k + 1));
                let w = choose|w: int| 0 <= w < prev.len() && prev[w] == k + 1;
                assert(ends[w] == k + 1);
            } else {
                assert(ends[ends.len() - 1] == k + 1);
            }
        }
        assert forall|i: int| 0 <= i < ends.len() implies 1 <= #[trigger] ends[i] <= bytes.len()
            && bytes[ends[i] - 1] == 10u8 by {
            if i < prev.len() {
                assert(ends[i] == prev[i]);
                assert(rest[prev[i] - 1] == bytes[prev[i] - 1]);
            }
        }
    }
}

/// The line feed offsets of a text and of the text with one more byte.
pub proof fn lemma_line_feed_ends_step(bytes: Seq<u8>, n: int)
    requires
        0 <= n < bytes.len(),
    ensures
        line_feed_ends(bytes.take(n + 1)) == if bytes[n] == 10u8 {
            line_feed_ends(bytes.take(n)).push(n + 1)
        } else {
            line_feed_ends(bytes.take(n))
        },
{
    assert(bytes.take(n + 1).drop_last() == bytes.take(n));
}

/// The start of a line lies at or before its end, and both lie in the text.
pub proof fn lemma_line_bounds(bytes: Seq<u8>, i: int)
    requires
        0 <= i < text_line_count(bytes),
    ensures
        0 <= text_line_start(bytes, i) <= text_line_end(bytes, i) <= bytes.len(),
{
    lemma_line_feed_ends(bytes);
}

/// The offsets just behind each line feed of `bytes`.
pub fn line_feed_offsets(bytes: &[u8]) -> (ends: Vec<usize>)
    ensures
        ends@.len() == line_feed_ends(bytes@).len(),
        forall|i: int| 0 <= i < ends@.len() ==> ends@[i] as int == line_feed_ends(bytes@)[i],
{
    let mut ends: Vec<usize> = Vec::new();
    let mut n: usize = 0;
    while n < bytes.len()
        invariant
            n <= bytes.len(),
            ends@.len() == line_feed_ends(bytes@.take(n as int)).len(),
            forall|i: int|
                0 <= i < ends@.len() ==> ends@[i] as int == line_feed_ends(
                    bytes@.take(n as int),
                )[i],
        decreases bytes.len() - n,
    {
        proof {
            lemma_line_feed_ends_step(bytes@, n as int);
        }
        if bytes[n] == 10u8 {
            ends.push(n + 1);
        }
        n = n + 1;
    }
    proof {
        assert(bytes@.take(n as int) == bytes@);
    }
    ends
}

/// Number of lines of `bytes`, given its line feed offsets.
pub fn count_lines(bytes: &[u8], ends: &Vec<usize>) -> (count: usize)
    requires
        ends@.len() == line_feed_ends(bytes@).len(),
        forall|i: int| 0 <= i < ends@.len() ==> ends@[i] as int == line_feed_ends(bytes@)[i],
    ensures
        count == text_line_count(bytes@),
{
    proof {
        lemma_line_feed_ends(bytes@);
    }
    let k = ends.len();
    let last_start: usize = if k == 0 {
        0
    } else {
        ends[k - 1]
    };
    if last_start < bytes.len() {
        k + 1
    } else {
        k
    }
}

/// Where the content of the 0-based line `i` begins and ends.
pub fn line_bounds(bytes: &[u8], ends: &Vec<usize>, i: usize) -> (range: (usize, usize))
    requires
        ends@.len() == line_feed_ends(bytes@).len(),
        forall|j: int| 0 <= j < ends@.len() ==> ends@[j] as int == line_feed_ends(bytes@)[j],
        i < text_line_count(bytes@),
    ensures
        range.0 == text_line_start(bytes@, i as int),
        range.1 == text_line_end(bytes@, i as int),
        range.0 <= range.1 <= bytes@.len(),
{
    proof {
        lemma_line_feed_ends(bytes@);
    }
    let start: usize = if i == 0 {
        0
    } else {
        ends[i - 1]
    };
    if i < ends.len() {
        let feed: usize = ends[i] - 1;
        if feed > start && bytes[feed - 1] == 13u8 {
            (start, feed - 1)
        } else {
            (start, feed)
        }
    } else {
        (start, bytes.len())
    }
}

/// Whether `symbol` stands in `line` at offset `p`.
pub fn stands_at(line: &[u8], symbol: &[u8], p: usize) -> (found: bool)
    requires
        p + symbol@.len() <= line@.len(),
    ensures
        found == occurs_at(line@, symbol@, p as int),
{
    let mut i: usize = 0;
    while i < symbol.len()
        invariant
            i <= symbol.len(),
            p + symbol.len() <= line.len(),
            forall|j: int| 0 <= j < i ==> line@[p + j] == symbol@[j],
        decreases symbol.len() - i,
    {
        if line[p + i] != symbol[i] {
            proof {
                let cut = line@.subrange(p as int, p + symbol@.len());
                assert(cut[i as int] == line@[p + i]);
            }
            return false;
        }
        i = i + 1;
    }
    proof {
        assert(line@.subrange(p as int, p + symbol@.len()) =~= symbol@);
    }
    true
}

/// `str::get` with a range of byte offsets: the part of `text` from `start`
/// up to `end`. The standard library gives `None` where indexing would
/// panic: where `start` is behind `end`, `end` behind the end of the text,
/// or one of them inside a character.
#[verifier::external_body]
pub(crate) fn str_get(text: &str, start: usize, end: usize) -> (part: Option<&str>)
    ensures
        part is Some <==> (start <= end <= text.spec_bytes().len() && is_char_boundary(
            text.spec_bytes(),
            start as int,
        ) && is_char_boundary(text.spec_bytes(), end as int)),
        part matches Some(p) ==> p.spec_bytes() == text.spec_bytes().subrange(
            start as int,
            end as int,
        ),
{
    text.get(start..end)
}

/// The part of `text` from byte `start` up to byte `end`, or `None` where
/// the range does not lie in the text or cuts a character.
pub fn slice_text(text: &str, start: usize, end: usize) -> (part: Option<String>)
    ensures
        part is Some <==> (start <= end <= text.spec_bytes().len() && is_char_boundary(
            text.spec_bytes(),
            start as int,
        ) && is_char_boundary(text.spec_bytes(), end as int)),
        part matches Some(p) ==> p@ == slice_chars(text.spec_bytes(), start as int, end as int),
{
    match str_get(text, start, end) {
        Some(part) => {
            proof {
                lemma_slice_chars(text, part, start as int, end as int);
            }
            Some(part.to_owned())
        },
        None => None,
    }
}

/// The characters whose bytes lie from `start` up to `end` in `bytes`.
pub open spec fn slice_chars(bytes: Seq<u8>, start: int, end: int) -> Seq<char> {
    vstd::utf8::decode_utf8(bytes.subrange(start, end))
}

/// A string whose bytes are a range of the bytes of `text` holds the
/// characters of that range.
proof fn lemma_slice_chars(text: &str, part: &str, start: int, end: int)
    requires
        part.spec_bytes() == text.spec_bytes().subrange(start, end),
    ensures
        part@ == slice_chars(text.spec_bytes(), start, end),
{
    vstd::utf8::encode_utf8_decode_utf8(part@);
}

/// `String::from_utf8`: the string whose bytes are `bytes`, or `None` where
/// they are no UTF-8.
#[verifier::external_body]
fn string_from_utf8(bytes: Vec<u8>) -> (text: Option<String>)
    ensures
        text is Some <==> vstd::utf8::valid_utf8(bytes@),
        text matches Some(s) ==> vstd::utf8::encode_utf8(s@) == bytes@,
{
    String::from_utf8(bytes).ok()
}

/// The string whose bytes are `bytes`, or `None` where they are no UTF-8.
pub fn text_of_bytes(bytes: Vec<u8>) -> (text: Option<String>)
    ensures
        text is Some <==> vstd::utf8::valid_utf8(bytes@),
        text matches Some(s) ==> vstd::utf8::encode_utf8(s@) == bytes@,
{
    string_from_utf8(bytes)
}

/// In valid text a character begins at every byte below `0x80`, and the
/// next begins right behind it.
pub proof fn lemma_boundaries_at_ascii(bytes: Seq<u8>, k: int)
    requires
        valid_utf8(bytes),
        0 <= k < bytes.len(),
        bytes[k] < 0x80,
    ensures
        is_char_boundary(bytes, k),
        is_char_boundary(bytes, k + 1),
{
    is_char_boundary_iff_not_is_continuation_byte(bytes, k);
    if k + 1 == bytes.len() {
        is_char_boundary_start_end_of_seq(bytes);
    } else {
        valid_utf8_split(bytes, k);
        let rest = bytes.subrange(k, bytes.len() as int);
        assert(rest[0] == bytes[k]);
        assert(rest[1] == bytes[k + 1]);
        assert(is_char_boundary(rest, 1)) by {
            reveal_with_fuel(is_char_boundary, 2);
        }
        is_char_boundary_iff_not_is_continuation_byte(rest, 1);
        is_char_boundary_iff_not_is_continuation_byte(bytes, k + 1);
    }
}

/// In valid text every line begins and ends between characters.
pub proof fn lemma_line_between_characters(bytes: Seq<u8>, i: int)
    requires
        valid_utf8(bytes),
        0 <= i < text_line_count(bytes),
    ensures
        is_char_boundary(bytes, text_line_start(bytes, i)),
        is_char_boundary(bytes, text_line_end(bytes, i)),
{
    lemma_line_feed_ends(bytes);
    is_char_boundary_start_end_of_seq(bytes);
    let ends = line_feed_ends(bytes);
    if i > 0 {
        lemma_boundaries_at_ascii(bytes, ends[i - 1] - 1);
    }
    if i < ends.len() {
        let feed = ends[i] - 1;
        lemma_boundaries_at_ascii(bytes, feed);
        if feed > text_line_start(bytes, i) && bytes[feed - 1] == 13u8 {
            lemma_boundaries_at_ascii(bytes, feed - 1);
        }
    }
}

/// The characters of the 0-based line `i` of `bytes`, without its line
/// ending; none where the text has no such line.
pub open spec fn line_chars(bytes: Seq<u8>, i: int) -> Seq<char> {
    if 0 <= i < text_line_count(bytes) {
        decode_utf8(text_line(bytes, i))
    } else {
        Seq::empty()
    }
}

/// The content of the 0-based line `line` of `text`, without its line
/// ending; empty where the text has no such line.
pub fn line_content(text: &str, line: usize) -> (content: String)
    ensures
        content@ == line_chars(text.spec_bytes(), line as int),
{
    let bytes = text.as_bytes();
    let ends = line_feed_offsets(bytes);
    let count = count_lines(bytes, &ends);
    if line >= count {
        return String::new();
    }
    let (start, end) = line_bounds(bytes, &ends, line);
    proof {
        encode_utf8_valid_utf8(text@);
        lemma_line_between_characters(bytes@, line as int);
    }
    match slice_text(text, start, end) {
        Some(part) => part,
        None => String::new(),
    }
}

/// The first and the end of the 0-based lines that the 1-based lines from
/// `start` to `end` are, in a text of `count` lines: `None` where the text
/// has no line `start`, or `end` lies before `start`.
pub open spec fn selected_lines(count: int, start: u32, end: u32) -> Option<(int, int)> {
    let first = if start == 0 {
        0int
    } else {
        start - 1
    };
    let beyond = if end <= count {
        end as int
    } else {
        count
    };
    if first >= count || beyond <= first {
        None
    } else {
        Some((first, beyond))
    }
}

/// The 0-based lines of `bytes` from `first` up to `beyond`, with a line
/// feed between each two.
pub open spec fn lines_joined(bytes: Seq<u8>, first: int, beyond: int) -> Seq<char>
    decreases beyond - first,
{
    if beyond <= first {
        Seq::empty()
    } else if beyond == first + 1 {
        line_chars(bytes, first)
    } else {
        lines_joined(bytes, first, beyond - 1) + "\n"@ + line_chars(bytes, beyond - 1)
    }
}

/// The 1-based lines from `start` to `end` of `text`, joined by line feeds;
/// an `end` behind the last line means the last line. `None` where the text
/// has no line `start`, or `end` lies before `start`.
pub fn select_lines(text: &str, start: u32, end: u32) -> (part: Option<String>)
    ensures
        match selected_lines(text_line_count(text.spec_bytes()), start, end) {
            Some((first, beyond)) => part matches Some(s) && s@ == lines_joined(
                text.spec_bytes(),
                first,
                beyond,
            ),
            None => part is None,
        },
{
    let bytes = text.as_bytes();
    let ends = line_feed_offsets(bytes);
    let count = count_lines(bytes, &ends);
    let first: usize = if start == 0 {
        0
    } else {
        (start - 1) as usize
    };
    let beyond: usize = if (end as usize) <= count {
        end as usize
    } else {
        count
    };
    if first >= count || beyond <= first {
        return None;
    }
    let mut out = line_content(text, first);
    let mut i: usize = first + 1;
    while i < beyond
        invariant
            first < i <= beyond <= count,
            out@ == lines_joined(text.spec_bytes(), first as int, i as int),
        decreases beyond - i,
    {
        out.append("\n");
        let line = line_content(text, i);
        out.append(line.as_str());
        i = i + 1;
    }
    Some(out)
}

} // verus!
