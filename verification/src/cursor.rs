//! Positions as a caller gives them, and the search that moves an
//! approximate position onto the symbol it names.

use vstd::prelude::*;
use vstd::string::*;
use vstd::utf8::{encode_utf8, encode_utf8_valid_utf8};
use crate::text::{
    column_distance, count_lines, is_first_occurrence, is_nearest_occurrence,
    lemma_line_between_characters, line_bounds, line_feed_ends, line_feed_offsets, occurs,
    occurs_at, stands_at, str_get, text_line, text_line_count,
};

verus! {

/// Number of lines on either side of the cursor in which a symbol is looked
/// for, and the largest distance in columns at which the nearest occurrence
/// on the cursor's own line is taken.
pub const TOLERANCE: u32 = 5;

/// A position in a file as a caller gives it: 1-based line and column, and
/// optionally the symbol that is expected near it.
#[derive(Debug, Clone)]
pub struct CursorCoordinates {
    /// Absolute path of the source file.
    pub file_path: String,
    /// Line number, 1-based.
    pub line: u32,
    /// Column number, 1-based, counted in bytes.
    pub column: u32,
    /// Symbol to look for near the position.
    pub symbol: Option<String>,
}

/// The 1-based column that the search picks on one line: none where the
/// symbol does not occur; on the cursor's own line the occurrence nearest to
/// the cursor's column if that is at most `TOLERANCE` columns away; in every
/// other case the leftmost occurrence.
pub open spec fn symbol_column(line: Seq<u8>, symbol: Seq<u8>, center: bool, column: int) -> Option<
    int,
> {
    if !occurs(line, symbol) {
        None
    } else {
        let first = choose|p: int| is_first_occurrence(line, symbol, p);
        let nearest = choose|p: int| is_nearest_occurrence(line, symbol, column, p);
        if center && column_distance(nearest, column) <= TOLERANCE {
            Some(nearest + 1)
        } else {
            Some(first + 1)
        }
    }
}

/// What the search finds on the 1-based line `n` of `bytes`: the line and
/// the column, or nothing where the text has no such line or the line does
/// not hold the symbol.
pub open spec fn window_hit(bytes: Seq<u8>, symbol: Seq<u8>, line: int, column: int, n: int) -> Option<
    (int, int),
> {
    if 1 <= n <= text_line_count(bytes) {
        match symbol_column(text_line(bytes, n - 1), symbol, n == line, column) {
            Some(c) => Some((n, c)),
            None => None,
        }
    } else {
        None
    }
}

/// The first hit of the search from distance `k` on: the line `k` below the
/// cursor, then the line `k` above it, then the same at the next distance,
/// up to `TOLERANCE`.
pub open spec fn search_window(bytes: Seq<u8>, symbol: Seq<u8>, line: int, column: int, k: int) -> Option<
    (int, int),
>
    decreases TOLERANCE + 1 - k,
{
    if k < 0 || k > TOLERANCE {
        None
    } else if window_hit(bytes, symbol, line, column, line + k) is Some {
        window_hit(bytes, symbol, line, column, line + k)
    } else if k != 0 && window_hit(bytes, symbol, line, column, line - k) is Some {
        window_hit(bytes, symbol, line, column, line - k)
    } else {
        search_window(bytes, symbol, line, column, k + 1)
    }
}

/// What the search finds in `bytes`: the first hit from the cursor's own
/// line outward. Columns are counted in bytes and held in 32 bits, so in a
/// text of `u32::MAX` bytes or more nothing is looked for.
pub open spec fn window_found(bytes: Seq<u8>, symbol: Seq<u8>, line: int, column: int) -> Option<
    (int, int),
> {
    if bytes.len() >= u32::MAX {
        None
    } else {
        search_window(bytes, symbol, line, column, 0)
    }
}

/// The cursor that `resolve_coordinates` gives for `cursor` on the text
/// `bytes`.
pub open spec fn resolved(cursor: CursorCoordinates, bytes: Seq<u8>) -> CursorCoordinates {
    match cursor.symbol {
        None => cursor,
        Some(symbol) => match window_found(
            bytes,
            encode_utf8(symbol@),
            cursor.line as int,
            cursor.column as int,
        ) {
            None => cursor,
            Some((n, c)) => CursorCoordinates {
                file_path: cursor.file_path,
                line: n as u32,
                column: c as u32,
                symbol: cursor.symbol,
            },
        },
    }
}

/// There is one leftmost occurrence.
pub proof fn lemma_first_occurrence(line: Seq<u8>, symbol: Seq<u8>, p: int)
    requires
        is_first_occurrence(line, symbol, p),
    ensures
        occurs(line, symbol),
        (choose|q: int| is_first_occurrence(line, symbol, q)) == p,
{
    let q = choose|q: int| is_first_occurrence(line, symbol, q);
    assert(occurs_at(line, symbol, p) && occurs_at(line, symbol, q));
}

/// There is one nearest occurrence.
pub proof fn lemma_nearest_occurrence(line: Seq<u8>, symbol: Seq<u8>, column: int, p: int)
    requires
        is_nearest_occurrence(line, symbol, column, p),
    ensures
        (choose|q: int| is_nearest_occurrence(line, symbol, column, q)) == p,
{
    let q = choose|q: int| is_nearest_occurrence(line, symbol, column, q);
    assert(occurs_at(line, symbol, p) && occurs_at(line, symbol, q));
}

/// A search that finds the symbol on no line of its window leaves the
/// cursor as it was.
pub proof fn lemma_no_match_keeps_cursor(cursor: CursorCoordinates, bytes: Seq<u8>)
    requires
        cursor.symbol matches Some(symbol) ==> forall|n: int|
            cursor.line - TOLERANCE <= n <= cursor.line + TOLERANCE && 1 <= n <= text_line_count(
                bytes,
            ) ==> !occurs(#[trigger] text_line(bytes, n - 1), encode_utf8(symbol@)),
    ensures
        resolved(cursor, bytes) == cursor,
{
    reveal_with_fuel(search_window, 7);
    if let Some(symbol) = cursor.symbol {
        let s = encode_utf8(symbol@);
        let l = cursor.line as int;
        let c = cursor.column as int;
        assert forall|n: int| l - TOLERANCE <= n <= l + TOLERANCE implies window_hit(
            bytes,
            s,
            l,
            c,
            n,
        ) is None by {
            if 1 <= n <= text_line_count(bytes) {
                assert(!occurs(text_line(bytes, n - 1), s));
            }
        }
        assert(search_window(bytes, s, l, c, 0) is None);
    }
}

/// A hit on a line names that line, which the text has, and a column at
/// which the symbol stands in it.
pub proof fn lemma_window_hit(bytes: Seq<u8>, symbol: Seq<u8>, line: int, column: int, n: int)
    ensures
        window_hit(bytes, symbol, line, column, n) matches Some((hn, hc)) ==> hn == n && 1 <= n
            <= text_line_count(bytes) && 1 <= hc <= bytes.len() + 1 && occurs_at(
            text_line(bytes, n - 1),
            symbol,
            hc - 1,
        ),
{
    if window_hit(bytes, symbol, line, column, n) is Some {
        let text = text_line(bytes, n - 1);
        crate::text::lemma_line_bounds(bytes, n - 1);
        let p = choose|p: int| occurs_at(text, symbol, p);
        lemma_occurrences_exist(text, symbol, column, p);
    }
}

/// What the search finds from distance `k` on is the hit of a line at most
/// `TOLERANCE` lines from the cursor.
pub proof fn lemma_search_window(bytes: Seq<u8>, symbol: Seq<u8>, line: int, column: int, k: int)
    requires
        0 <= k,
    ensures
        search_window(bytes, symbol, line, column, k) matches Some(hit) ==> line - TOLERANCE
            <= hit.0 <= line + TOLERANCE && window_hit(bytes, symbol, line, column, hit.0) == Some(
            hit,
        ),
    decreases TOLERANCE + 1 - k,
{
    if k <= TOLERANCE {
        lemma_window_hit(bytes, symbol, line, column, line + k);
        lemma_window_hit(bytes, symbol, line, column, line - k);
        if window_hit(bytes, symbol, line, column, line + k) is Some {
        } else if k != 0 && window_hit(bytes, symbol, line, column, line - k) is Some {
        } else {
            lemma_search_window(bytes, symbol, line, column, k + 1);
        }
    }
}

/// The 1-based line `n` of `bytes` exists and holds `symbol`.
pub open spec fn holds_symbol(bytes: Seq<u8>, symbol: Seq<u8>, n: int) -> bool {
    1 <= n <= text_line_count(bytes) && occurs(text_line(bytes, n - 1), symbol)
}

/// Number of lines between two lines.
pub open spec fn line_distance(n: int, line: int) -> int {
    if n >= line {
        n - line
    } else {
        line - n
    }
}

/// The search from distance `k` on finds the nearest line that holds the
/// symbol among those from `k` to `TOLERANCE` lines away, and finds nothing
/// exactly where none of them holds it.
pub proof fn lemma_nearest_line(bytes: Seq<u8>, symbol: Seq<u8>, line: int, column: int, k: int)
    requires
        0 <= k,
    ensures
        search_window(bytes, symbol, line, column, k) matches Some(hit) ==> holds_symbol(
            bytes,
            symbol,
            hit.0,
        ) && k <= line_distance(hit.0, line) <= TOLERANCE && forall|n: int|
            #![trigger holds_symbol(bytes, symbol, n)]
            holds_symbol(bytes, symbol, n) && k <= line_distance(n, line) <= TOLERANCE
                ==> line_distance(hit.0, line) <= line_distance(n, line),
        search_window(bytes, symbol, line, column, k) is None ==> forall|n: int|
            #![trigger holds_symbol(bytes, symbol, n)]
            k <= line_distance(n, line) <= TOLERANCE ==> !holds_symbol(bytes, symbol, n),
    decreases TOLERANCE + 1 - k,
{
    if k <= TOLERANCE {
        lemma_window_hit(bytes, symbol, line, column, line + k);
        lemma_window_hit(bytes, symbol, line, column, line - k);
        if window_hit(bytes, symbol, line, column, line + k) is Some {
            assert(holds_symbol(bytes, symbol, line + k));
        } else if k != 0 && window_hit(bytes, symbol, line, column, line - k) is Some {
            assert(holds_symbol(bytes, symbol, line - k));
        } else {
            lemma_nearest_line(bytes, symbol, line, column, k + 1);
            assert(!holds_symbol(bytes, symbol, line + k));
            assert(!holds_symbol(bytes, symbol, line - k));
            assert forall|n: int| line_distance(n, line) == k implies !holds_symbol(
                bytes,
                symbol,
                n,
            ) by {
                assert(n == line + k || n == line - k);
            }
        }
    }
}

/// The search finds nothing exactly where no line at most `TOLERANCE` lines
/// from the cursor holds the symbol.
pub proof fn lemma_found_where_held(bytes: Seq<u8>, symbol: Seq<u8>, line: int, column: int)
    requires
        bytes.len() < u32::MAX,
    ensures
        window_found(bytes, symbol, line, column) is None <==> forall|n: int|
            #![trigger holds_symbol(bytes, symbol, n)]
            line_distance(n, line) <= TOLERANCE ==> !holds_symbol(bytes, symbol, n),
{
    lemma_nearest_line(bytes, symbol, line, column, 0);
    if let Some(hit) = search_window(bytes, symbol, line, column, 0) {
        assert(holds_symbol(bytes, symbol, hit.0));
    }
}

/// Where a line at most `TOLERANCE` lines from the cursor holds the symbol,
/// the search puts the cursor on a line that holds it, and no line that
/// holds it is nearer to where the cursor was.
pub proof fn lemma_resolved_nearest(cursor: CursorCoordinates, bytes: Seq<u8>, n: int)
    requires
        bytes.len() < u32::MAX,
        cursor.symbol is Some,
        holds_symbol(bytes, encode_utf8(cursor.symbol->0@), n),
        line_distance(n, cursor.line as int) <= TOLERANCE,
    ensures
        holds_symbol(bytes, encode_utf8(cursor.symbol->0@), resolved(cursor, bytes).line as int),
        line_distance(resolved(cursor, bytes).line as int, cursor.line as int) <= line_distance(
            n,
            cursor.line as int,
        ),
{
    let s = encode_utf8(cursor.symbol->0@);
    let l = cursor.line as int;
    let c = cursor.column as int;
    crate::text::lemma_line_feed_ends(bytes);
    lemma_nearest_line(bytes, s, l, c, 0);
    assert(holds_symbol(bytes, s, n));
    let hit = search_window(bytes, s, l, c, 0)->0;
    lemma_search_window(bytes, s, l, c, 0);
    lemma_window_hit(bytes, s, l, c, hit.0);
}

/// A search that moves the cursor puts it on a line at most `TOLERANCE`
/// lines away that holds the symbol at the new column, and a cursor without
/// symbol is never moved.
pub proof fn lemma_resolved_on_symbol(cursor: CursorCoordinates, bytes: Seq<u8>)
    ensures
        cursor.symbol is None ==> resolved(cursor, bytes) == cursor,
        cursor.symbol matches Some(symbol) ==> resolved(cursor, bytes) == cursor || ({
            let r = resolved(cursor, bytes);
            &&& r.file_path == cursor.file_path
            &&& r.symbol == cursor.symbol
            &&& 1 <= r.line <= text_line_count(bytes)
            &&& cursor.line - TOLERANCE <= r.line <= cursor.line + TOLERANCE
            &&& r.column >= 1
            &&& occurs_at(text_line(bytes, r.line - 1), encode_utf8(symbol@), r.column - 1)
        }),
{
    if let Some(symbol) = cursor.symbol {
        if bytes.len() < u32::MAX {
            let s = encode_utf8(symbol@);
            let l = cursor.line as int;
            let c = cursor.column as int;
            crate::text::lemma_line_feed_ends(bytes);
            lemma_search_window(bytes, s, l, c, 0);
            if let Some(hit) = search_window(bytes, s, l, c, 0) {
                lemma_window_hit(bytes, s, l, c, hit.0);
            }
        }
    }
}

/// Where a symbol occurs in a line, it has a leftmost and a nearest
/// occurrence.
pub proof fn lemma_occurrences_exist(line: Seq<u8>, symbol: Seq<u8>, column: int, p: int)
    requires
        occurs_at(line, symbol, p),
    ensures
        exists|f: int| is_first_occurrence(line, symbol, f),
        exists|n: int| is_nearest_occurrence(line, symbol, column, n),
        is_first_occurrence(line, symbol, choose|f: int| is_first_occurrence(line, symbol, f)),
        is_nearest_occurrence(
            line,
            symbol,
            column,
            choose|n: int| is_nearest_occurrence(line, symbol, column, n),
        ),
{
    lemma_first_below(line, symbol, p, p);
    lemma_nearest_scan(line, symbol, column, 0, p);
}

/// Where `p` is the leftmost of the occurrences behind `bound`, one
/// occurrence is leftmost of all.
proof fn lemma_first_below(line: Seq<u8>, symbol: Seq<u8>, p: int, bound: int)
    requires
        occurs_at(line, symbol, p),
        0 <= bound <= p,
        forall|q: int| bound < q < p ==> !occurs_at(line, symbol, q),
    ensures
        exists|f: int| is_first_occurrence(line, symbol, f),
    decreases bound,
{
    if bound == 0 {
        if occurs_at(line, symbol, 0) && p != 0 {
            assert(is_first_occurrence(line, symbol, 0));
        } else {
            assert(is_first_occurrence(line, symbol, p));
        }
    } else if bound == p {
        lemma_first_below(line, symbol, p, bound - 1);
    } else if occurs_at(line, symbol, bound) {
        lemma_first_below(line, symbol, bound, bound - 1);
    } else {
        lemma_first_below(line, symbol, p, bound - 1);
    }
}

/// Where `best` is the nearest of the occurrences before `at`, one
/// occurrence is nearest of all.
proof fn lemma_nearest_scan(line: Seq<u8>, symbol: Seq<u8>, column: int, at: int, best: int)
    requires
        0 <= at <= line.len() + 1,
        occurs_at(line, symbol, best),
        forall|q: int|
            (0 <= q < at) && occurs_at(line, symbol, q) ==> column_distance(best, column)
                < column_distance(q, column) || (column_distance(best, column) == column_distance(
                q,
                column,
            ) && best <= q),
    ensures
        exists|n: int| is_nearest_occurrence(line, symbol, column, n),
    decreases line.len() + 1 - at,
{
    if at == line.len() + 1 {
        assert(is_nearest_occurrence(line, symbol, column, best));
    } else if occurs_at(line, symbol, at) && (column_distance(at, column) < column_distance(
        best,
        column,
    ) || (column_distance(at, column) == column_distance(best, column) && at < best)) {
        lemma_nearest_scan(line, symbol, column, at + 1, at);
    } else {
        lemma_nearest_scan(line, symbol, column, at + 1, best);
    }
}

impl CursorCoordinates {
    /// A copy of this cursor.
    pub fn duplicate(&self) -> (copy: CursorCoordinates)
        ensures
            copy == *self,
    {
        let symbol = match &self.symbol {
            Some(s) => Some(s.clone()),
            None => None,
        };
        CursorCoordinates {
            file_path: self.file_path.clone(),
            line: self.line,
            column: self.column,
            symbol,
        }
    }

    /// The 0-based line and column of this cursor; a 0 stays 0.
    pub fn line_col(&self) -> (pos: (u32, u32))
        ensures
            pos.0 == if self.line == 0 {
                0
            } else {
                self.line - 1
            },
            pos.1 == if self.column == 0 {
                0
            } else {
                self.column - 1
            },
    {
        (self.line.saturating_sub(1), self.column.saturating_sub(1))
    }

    /// Moves the cursor onto the symbol it names, if the symbol stands on a
    /// line at most `TOLERANCE` lines away in `file_content`. A cursor
    /// without symbol, or whose symbol is not found, comes back unchanged.
    ///
    /// Lines are visited nearest first, the line below before the line above
    /// at the same distance. Columns are counted in bytes, so in a text of
    /// `u32::MAX` bytes or more nothing is looked for.
    pub fn resolve_coordinates(&self, file_content: &str) -> (cursor: CursorCoordinates)
        ensures
            cursor == resolved(*self, file_content.spec_bytes()),
    {
        match &self.symbol {
            Some(symbol) => {
                match self.find_symbol_in_tolerance_box(file_content, symbol.as_str()) {
                    Some(found) => found,
                    None => self.duplicate(),
                }
            },
            None => self.duplicate(),
        }
    }

    /// Looks for `symbol` on the lines around the cursor and gives the
    /// cursor moved onto the first hit.
    pub fn find_symbol_in_tolerance_box(&self, file_content: &str, symbol: &str) -> (found: Option<
        CursorCoordinates,
    >)
        ensures
            match window_found(
                file_content.spec_bytes(),
                symbol.spec_bytes(),
                self.line as int,
                self.column as int,
            ) {
                None => found is None,
                Some((n, c)) => found == Some(
                    CursorCoordinates {
                        file_path: self.file_path,
                        line: n as u32,
                        column: c as u32,
                        symbol: self.symbol,
                    },
                ),
            },
    {
        let bytes = file_content.as_bytes();
        if bytes.len() >= u32::MAX as usize {
            return None;
        }
        let ghost sym = symbol.spec_bytes();
        let ends = line_feed_offsets(bytes);
        let count = count_lines(bytes, &ends);
        proof {
            crate::text::lemma_line_feed_ends(bytes@);
        }
        let mut k: u32 = 0;
        while k <= TOLERANCE
            invariant
                k <= TOLERANCE + 1,
                bytes@ == file_content.spec_bytes(),
                sym == symbol.spec_bytes(),
                bytes@.len() < u32::MAX,
                ends@.len() == line_feed_ends(bytes@).len(),
                forall|i: int|
                    0 <= i < ends@.len() ==> ends@[i] as int == line_feed_ends(bytes@)[i],
                count == text_line_count(bytes@),
                count <= u32::MAX,
                search_window(bytes@, sym, self.line as int, self.column as int, k as int)
                    == search_window(bytes@, sym, self.line as int, self.column as int, 0),
            decreases TOLERANCE + 1 - k,
        {
            if k <= u32::MAX - self.line {
                if let Some(c) = self.probe_line(file_content, bytes, &ends, count, symbol, self.line + k) {
                    return Some(self.moved_to(self.line + k, c));
                }
            }
            if k != 0 && self.line > k {
                if let Some(c) = self.probe_line(file_content, bytes, &ends, count, symbol, self.line - k) {
                    return Some(self.moved_to(self.line - k, c));
                }
            }
            k = k + 1;
        }
        None
    }

    /// This cursor at another line and column.
    fn moved_to(&self, line: u32, column: u32) -> (cursor: CursorCoordinates)
        ensures
            cursor == (CursorCoordinates {
                file_path: self.file_path,
                line,
                column,
                symbol: self.symbol,
            }),
    {
        let symbol = match &self.symbol {
            Some(s) => Some(s.clone()),
            None => None,
        };
        CursorCoordinates { file_path: self.file_path.clone(), line, column, symbol }
    }

    /// The column of `symbol` on the 1-based line `n`, if the text has that
    /// line and the line holds the symbol.
    fn probe_line(&self, text: &str, bytes: &[u8], ends: &Vec<usize>, count: usize, symbol: &str, n: u32) -> (column:
        Option<u32>)
        requires
            bytes@ == text.spec_bytes(),
            bytes@.len() < u32::MAX,
            ends@.len() == line_feed_ends(bytes@).len(),
            forall|i: int| 0 <= i < ends@.len() ==> ends@[i] as int == line_feed_ends(bytes@)[i],
            count == text_line_count(bytes@),
        ensures
            match window_hit(
                bytes@,
                symbol.spec_bytes(),
                self.line as int,
                self.column as int,
                n as int,
            ) {
                None => column is None,
                Some((hn, hc)) => column == Some(hc as u32) && hn == n && 1 <= hc <= u32::MAX,
            },
    {
        if n == 0 || n as usize > count {
            return None;
        }
        let (start, end) = line_bounds(bytes, ends, (n - 1) as usize);
        proof {
            encode_utf8_valid_utf8(text@);
            lemma_line_between_characters(bytes@, n - 1);
            crate::text::lemma_line_bounds(bytes@, n - 1);
        }
        match str_get(text, start, end) {
            Some(line) => self.find_symbol_in_line(line, symbol, n as usize),
            None => None,
        }
    }

    /// The 1-based column at which `symbol` is taken to stand in `line`,
    /// which is the line numbered `line_number`: on the cursor's own line
    /// the occurrence nearest to the cursor's column, if it is at most
    /// `TOLERANCE` columns away; else the leftmost occurrence; `None` where
    /// there is none.
    pub fn find_symbol_in_line(&self, line: &str, symbol: &str, line_number: usize) -> (column:
        Option<u32>)
        requires
            line.spec_bytes().len() < u32::MAX,
        ensures
            match symbol_column(
                line.spec_bytes(),
                symbol.spec_bytes(),
                line_number == self.line,
                self.column as int,
            ) {
                None => column is None,
                Some(c) => column == Some(c as u32) && 1 <= c <= u32::MAX,
            },
    {
        self.find_in_bytes(line.as_bytes(), symbol.as_bytes(), line_number)
    }

    /// The same on the bytes of the line and of the symbol.
    fn find_in_bytes(&self, line: &[u8], symbol: &[u8], line_number: usize) -> (column: Option<u32>)
        requires
            line@.len() < u32::MAX,
        ensures
            match symbol_column(line@, symbol@, line_number == self.line, self.column as int) {
                None => column is None,
                Some(c) => column == Some(c as u32) && 1 <= c <= u32::MAX,
            },
    {
        let n = line.len();
        let m = symbol.len();
        if m > n {
            assert(!occurs(line@, symbol@));
            return None;
        }
        let target: usize = self.column as usize;
        let mut first: Option<usize> = None;
        let mut best: usize = 0;
        let mut best_distance: usize = 0;
        let mut p: usize = 0;
        while p <= n - m
            invariant
                n == line@.len(),
                m == symbol@.len(),
                m <= n < u32::MAX,
                target == self.column,
                p <= n - m + 1,
                first is None ==> forall|q: int| 0 <= q < p ==> !occurs_at(line@, symbol@, q),
                first matches Some(f) ==> f < p && occurs_at(line@, symbol@, f as int)
                    && forall|q: int| 0 <= q < f ==> !occurs_at(line@, symbol@, q),
                first is Some ==> best < p && occurs_at(line@, symbol@, best as int)
                    && best_distance == column_distance(best as int, target as int),
                first is Some ==> forall|q: int|
                    0 <= q < p && occurs_at(line@, symbol@, q) ==> best_distance < column_distance(
                        q,
                        target as int,
                    ) || (best_distance == column_distance(q, target as int) && best <= q),
            decreases n - m + 1 - p,
        {
            if stands_at(line, symbol, p) {
                let distance: usize = if p + 1 >= target {
                    p + 1 - target
                } else {
                    target - (p + 1)
                };
                if first.is_none() {
                    first = Some(p);
                    best = p;
                    best_distance = distance;
                } else if distance < best_distance {
                    best = p;
                    best_distance = distance;
                }
            }
            p = p + 1;
        }
        match first {
            None => {
                assert(!occurs(line@, symbol@));
                None
            },
            Some(f) => {
                proof {
                    assert(is_first_occurrence(line@, symbol@, f as int));
                    assert(is_nearest_occurrence(line@, symbol@, target as int, best as int));
                    lemma_first_occurrence(line@, symbol@, f as int);
                    lemma_nearest_occurrence(line@, symbol@, target as int, best as int);
                }
                if line_number == self.line as usize && best_distance <= TOLERANCE as usize {
                    Some((best + 1) as u32)
                } else {
                    Some((f + 1) as u32)
                }
            },
        }
    }
}

} // verus!
