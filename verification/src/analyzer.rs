//! The queries: each brings the engine up to date, resolves the cursor,
//! puts the question to the engine and restates the answer in lines and
//! columns.

use vstd::prelude::*;
use vstd::string::*;
use vstd::utf8::{encode_utf8, encode_utf8_valid_utf8, is_char_boundary};
use ra_ap_ide::{
    Analysis, AnalysisHost, Assist, CallItem, HoverAction, LineIndex, NavigationTarget,
    ReferenceSearchResult,
};
use ra_ap_ide_ssr::MatchFinder;
use crate::changes::{
    change_set_from_engine_edits, edits_in_lines, edits_ordered, edits_to_lines, file_change_of,
    lemma_edits_in_order, ranges_ordered, restates, FileEdits,
};
use crate::convert::{
    assist_info_from, caller_from, completes, completion_from, copy_text, definition_content,
    definition_content_of, definition_from, definition_of, first_moniker, kept, match_formed,
    match_in_order,
    module_name, module_name_of, outline_item_from, place, place_of, placed, plain_content,
    present,
    plain_content_of, reference_from, reference_of, search_result_from, ssr_match_from,
    ssr_match_without_place,
};
use crate::cursor::{lemma_resolved_on_symbol, resolved, CursorCoordinates};
use crate::engine::{
    analysis_file_text, analysis_line_index, analysis_texts, assist_fields, builder_apply,
    builder_insert, builder_insertions, builder_new, call_item_target, completion_config,
    diagnostic_fields, engine_assists, engine_completions, engine_diagnostics,
    engine_expand_macro, engine_file_structure, engine_find_all_refs,
    engine_goto_implementation, engine_hover, engine_incoming_calls, engine_inlay_hints,
    engine_monikers, engine_outgoing_calls, engine_rename, engine_signature_help,
    engine_symbol_search, finder_add_rule, finder_add_search_pattern, finder_at_first_file,
    finder_edits, finder_in_context, finder_matched_texts, fits, found_uses, holds,
    host_analysis, host_texts, hover_action_paths, in_text, inlay_hint_fields,
    inlay_hints_config, insert_use_config, inserted_len, insertions_fit,
    lemma_inserted_len_grows, lemma_placed_behind, nav_target, placed_behind,
    reference_declaration, reference_ranges, short, source_change_edits,
    source_change_is_snippet, ssr_pattern, ssr_rule, structure_node_fields, symbol_kind_name,
    uses_of, with_insertions, FileRanges, NavTarget, RawAssist, RawCompletion, RawHint,
    RawMoniker, RawNode,
};
use crate::entities::{
    AssistInfo, AssistSourceChange, CallerInfo, CompletionItem, DefinitionInfo, DiagnosticFix,
    DiagnosticInfo, FileChange, FileOutlineItem, MacroExpansion, ReferenceInfo, RenameResult,
    SignatureInfo, SsrMatch, SsrResult, SymbolAnalysis, SymbolSearchResult, TextEdit, TypeHint,
};
use crate::error::{ErrorKind, QueryError};
use crate::position::{
    from_engine, lemma_offset_on_boundary, lemma_position_on_boundary, table, table_of,
    to_engine, LineTable,
};
use crate::sorting::{in_listing_order, sort_references};
use crate::strings::{join, joined};
use crate::text::{
    line_chars, line_content, lines_joined, select_lines, selected_lines, slice_chars,
    slice_text, text_line_count,
};
use crate::tracker::{
    flushed, position_of, resolved_updates, FileHandle, FileWatcher, MAX_FILES,
};

verus! {

/// A workspace session: the engine and the files it knows.
pub struct RustAnalyzerish {
    host: AnalysisHost,
    file_watcher: FileWatcher,
}

/// A cursor made ready for the engine: the snapshot to ask, the file of the
/// cursor, its offset in the file as the engine holds it, the cursor after
/// its symbol was looked for, and the engine's table of lines of the file.
struct Prepared {
    analysis: Analysis,
    file: FileHandle,
    offset: u32,
    cursor: CursorCoordinates,
    index: LineIndex,
}

/// A cursor made ready for the engine, for a caller that puts a question to
/// the engine itself. It borrows the session that made it: as long as it
/// lives the session takes no other query. The engine waits with every
/// change until the last snapshot is dropped, so a snapshot must never be
/// out when the queued changes are handed on.
pub struct CursorQuery<'a> {
    session: &'a RustAnalyzerish,
    prepared: Prepared,
}

/// A file made ready for the engine: the snapshot to ask, the file, and
/// the engine's table of lines of the file.
struct FileQuery {
    analysis: Analysis,
    file: FileHandle,
    index: LineIndex,
}

impl<'a> CursorQuery<'a> {
    /// The session that made the query.
    pub closed spec fn session(&self) -> RustAnalyzerish {
        *self.session
    }

    /// The snapshot of the engine to ask.
    pub closed spec fn snapshot(&self) -> Analysis {
        self.prepared.analysis
    }

    /// The file of the cursor.
    pub closed spec fn handle(&self) -> FileHandle {
        self.prepared.file
    }

    /// The offset of the cursor in the file as the engine holds it.
    pub closed spec fn place(&self) -> u32 {
        self.prepared.offset
    }

    /// The cursor after its symbol was looked for.
    pub closed spec fn resolved_cursor(&self) -> CursorCoordinates {
        self.prepared.cursor
    }

    /// The query can be put to the engine: the session is well formed, the
    /// snapshot holds every file of the session, and the offset lies in
    /// the text of the file and cuts no character.
    pub closed spec fn wf(&self) -> bool {
        self.session.wf() && self.session.ready(self.prepared)
    }

    /// The session that made the query, for what needs no change of it.
    pub fn analyzer(&self) -> (session: &RustAnalyzerish)
        ensures
            *session == self.session(),
    {
        self.session
    }

    /// The snapshot of the engine to ask.
    pub fn analysis(&self) -> (analysis: &Analysis)
        ensures
            *analysis == self.snapshot(),
    {
        &self.prepared.analysis
    }

    /// The file of the cursor.
    pub fn file(&self) -> (file: FileHandle)
        ensures
            file == self.handle(),
    {
        self.prepared.file
    }

    /// The offset of the cursor in the file as the engine holds it.
    pub fn offset(&self) -> (offset: u32)
        ensures
            offset == self.place(),
    {
        self.prepared.offset
    }

    /// The cursor after its symbol was looked for.
    pub fn cursor(&self) -> (cursor: &CursorCoordinates)
        ensures
            *cursor == self.resolved_cursor(),
    {
        &self.prepared.cursor
    }
}

/// How a call of the engine's go-to-definition ended. The call may panic at
/// some positions, so it is made where a panic can be caught and its
/// outcome is handed on.
pub enum GotoOutcome {
    /// The engine panicked.
    Panicked,
    /// The engine gave up; the text says why.
    Failed(String),
    /// The engine found no symbol at the position.
    NoResult,
    /// The places of the definitions.
    Targets(Vec<NavigationTarget>),
}

/// What the engine gave for one call item: the function that calls or is
/// called, and the table of lines of its file where the file has a path and
/// the engine gave one.
pub struct CallAnswer {
    pub nav: NavTarget,
    pub index: Option<LineIndex>,
}

/// `found` is the caller or callee that a call item amounts to.
pub open spec fn call_reports(paths: Seq<Seq<char>>, answer: CallAnswer, found: CallerInfo) -> bool {
    &&& found.name == answer.nav.name
    &&& found.file_path@ == if answer.nav.file.0 < paths.len() {
        paths[answer.nav.file.0 as int]
    } else {
        "unknown"@
    }
    &&& (found.line, found.column) == match answer.index {
        Some(index) => place_of(table(index), answer.nav.focus_start),
        None => (0u32, 0u32),
    }
}

/// `found` holds, in the order of `answers`, what each call item amounts
/// to.
pub open spec fn calls_listed(paths: Seq<Seq<char>>, answers: Seq<CallAnswer>, found: Seq<CallerInfo>) -> bool {
    &&& found.len() == answers.len()
    &&& forall|i: int| 0 <= i < found.len() ==> call_reports(paths, answers[i], #[trigger] found[i])
}

/// What the engine gave for one file: its table of lines and its text.
/// Either is `None` where the engine was not asked or gave none.
pub struct FileAnswer {
    pub index: Option<LineIndex>,
    pub text: Option<Result<String, String>>,
}

/// A file is listed where it has a path and the engine gave its table of
/// lines.
pub open spec fn file_listed(paths: Seq<Seq<char>>, file: FileHandle, answer: FileAnswer) -> bool {
    file.0 < paths.len() && answer.index is Some
}

/// The characters of `text` from byte `start` up to byte `end`, where the
/// text could be had and the range lies in it and cuts no character.
pub open spec fn text_between(text: Option<Result<String, String>>, start: u32, end: u32) -> Option<
    Seq<char>,
> {
    match text {
        Some(Ok(source)) => if start <= end <= encode_utf8(source@).len() && is_char_boundary(
            encode_utf8(source@),
            start as int,
        ) && is_char_boundary(encode_utf8(source@), end as int) {
            Some(slice_chars(encode_utf8(source@), start as int, end as int))
        } else {
            None
        },
        _ => None,
    }
}

/// The line of `text` on which `offset` lies by the table `t`, without its
/// line ending; nothing where the offset has no position or the text no
/// such line.
pub open spec fn line_at(t: LineTable, text: Seq<char>, offset: u32) -> Seq<char> {
    if place_of(t, offset).0 == 0 {
        Seq::empty()
    } else {
        line_chars(encode_utf8(text), place_of(t, offset).0 - 1)
    }
}

/// The name under which the uses of a symbol are listed: that of its
/// declaration, or `"unknown"` where the engine knows none.
pub open spec fn symbol_name(declared: Option<PlaceAnswer>) -> Seq<char> {
    match declared {
        Some(answer) => answer.nav.name@,
        None => "unknown"@,
    }
}

/// `found` is the reference that a listed declaration amounts to: at the
/// path of its file and the place of its name, with the line of source it
/// stands on where the engine gave the text.
pub open spec fn declares(paths: Seq<Seq<char>>, answer: PlaceAnswer, found: ReferenceInfo) -> bool {
    &&& found.file_path@ == paths[answer.nav.file.0 as int]
    &&& found.name == answer.nav.name
    &&& found.content@ == match answer.text {
        Some(Ok(text)) => line_at(table(answer.index->0), text@, answer.nav.focus_start),
        _ => Seq::<char>::empty(),
    }
    &&& found == reference_of(
        table(answer.index->0),
        found.file_path,
        answer.nav.focus_start,
        answer.nav.focus_end,
        found.name,
        found.content,
        true,
    )
}

/// The uses in a file are listed where the file has a path and the engine
/// gave its table of lines and its text.
pub open spec fn uses_shown(paths: Seq<Seq<char>>, file: FileHandle, answer: FileAnswer) -> bool {
    file.0 < paths.len() && answer.index is Some && answer.text matches Some(Ok(_))
}

/// `found` is the reference that use `j` of a file amounts to: at the path
/// of the file and the place of the use, under the name `name`, with the
/// line of source it stands on.
pub open spec fn use_reports(
    paths: Seq<Seq<char>>,
    file: FileRanges,
    answer: FileAnswer,
    name: Seq<char>,
    j: int,
    found: ReferenceInfo,
) -> bool {
    let range = file.ranges@[j];
    &&& found.file_path@ == paths[file.file.0 as int]
    &&& found.name@ == name
    &&& found.content@ == line_at(table(answer.index->0), answer.text->0->Ok_0@, range.0)
    &&& found == reference_of(
        table(answer.index->0),
        found.file_path,
        range.0,
        range.1,
        found.name,
        found.content,
        false,
    )
}

/// `found` holds, file by file in the order of `files`, one reference for
/// each use in each file whose uses are listed, and nothing else.
pub open spec fn uses_listed(
    paths: Seq<Seq<char>>,
    files: Seq<FileRanges>,
    answers: Seq<FileAnswer>,
    name: Seq<char>,
    found: Seq<ReferenceInfo>,
) -> bool
    decreases files.len(),
{
    if files.len() == 0 {
        found.len() == 0
    } else if uses_shown(paths, files.last().file, answers.last()) {
        let base = found.len() - files.last().ranges@.len();
        &&& base >= 0
        &&& uses_listed(paths, files.drop_last(), answers.drop_last(), name, found.take(base))
        &&& forall|k: int|
            base <= k < found.len() ==> use_reports(
                paths,
                files.last(),
                answers.last(),
                name,
                k - base,
                #[trigger] found[k],
            )
    } else {
        uses_listed(paths, files.drop_last(), answers.drop_last(), name, found)
    }
}

/// What `references_of` makes of a list of references, given what the
/// engine answered: the list as it was, then the declaration where it is
/// listed, then the uses.
pub open spec fn references_answered(
    paths: Seq<Seq<char>>,
    declared: Option<PlaceAnswer>,
    files: Seq<FileRanges>,
    answers: Seq<FileAnswer>,
    before: Seq<ReferenceInfo>,
    after: Seq<ReferenceInfo>,
) -> bool {
    let first = before.len() as int;
    let declaration = declared is Some && place_listed(paths, declared->0);
    let uses = if declaration {
        first + 1
    } else {
        first
    };
    &&& answers.len() == files.len()
    &&& after.len() >= uses
    &&& after.take(first) == before
    &&& declaration ==> declares(paths, declared->0, after[first])
    &&& uses_listed(paths, files, answers, symbol_name(declared), after.skip(uses))
}

/// What the engine gave for one search for references: the search, the
/// declaration, the files of the uses in the order in which the engine gave
/// them, what it gave for each file, and the references listed once this
/// search was gone through.
pub struct SearchAnswer {
    pub result: ReferenceSearchResult,
    pub declared: Option<PlaceAnswer>,
    pub files: Seq<FileRanges>,
    pub answers: Seq<FileAnswer>,
    pub listed: Seq<ReferenceInfo>,
}

/// Search `k` of `searches`, put to an engine that holds `held`, added its
/// references behind those of the searches before it: its declaration
/// where it is listed, then every use that the search holds in a file that
/// is shown, once.
pub open spec fn search_answered_at(
    paths: Seq<Seq<char>>,
    held: Map<int, Seq<char>>,
    searches: Seq<SearchAnswer>,
    k: int,
) -> bool {
    &&& uses_of(searches[k].files).to_multiset() == found_uses(searches[k].result)
    &&& search_given(held, searches[k].declared, searches[k].files, searches[k].answers)
    &&& references_answered(
        paths,
        searches[k].declared,
        searches[k].files,
        searches[k].answers,
        if k == 0 {
            Seq::empty()
        } else {
            searches[k - 1].listed
        },
        searches[k].listed,
    )
}

/// `listed` holds the references of all searches, search by search in their
/// order.
pub open spec fn searches_answered(
    paths: Seq<Seq<char>>,
    held: Map<int, Seq<char>>,
    searches: Seq<SearchAnswer>,
    listed: Seq<ReferenceInfo>,
) -> bool {
    &&& forall|k: int|
        0 <= k < searches.len() ==> #[trigger] search_answered_at(paths, held, searches, k)
    &&& listed == if searches.len() == 0 {
        Seq::empty()
    } else {
        searches.last().listed
    }
}

/// `found` is the match that edit `j` of a listed file stands for, as match
/// number `k` of all: at the path of the file and the place of the edit, or
/// without place where an end of the edit has no position in the text;
/// with the text of the file at that place, or where that cannot be had the
/// text that the engine reports for match `k`, or `"<unknown>"`; with
/// `replacing` it carries what the edit puts in.
pub open spec fn match_reports(
    paths: Seq<Seq<char>>,
    file: FileEdits,
    answer: FileAnswer,
    texts: Seq<String>,
    replacing: bool,
    j: int,
    k: int,
    found: SsrMatch,
) -> bool {
    let edit = file.edits@[j];
    let t = table(answer.index->0);
    &&& match_formed(found)
    &&& found.file_path@ == if placed(t, edit.start, edit.end) {
        paths[file.file.0 as int]
    } else {
        Seq::<char>::empty()
    }
    &&& (found.line, found.column) == if placed(t, edit.start, edit.end) {
        place_of(t, edit.start)
    } else {
        (0u32, 0u32)
    }
    &&& (found.end_line, found.end_column) == if placed(t, edit.start, edit.end) {
        place_of(t, edit.end)
    } else {
        (0u32, 0u32)
    }
    &&& found.matched_text@ == match text_between(answer.text, edit.start, edit.end) {
        Some(text) => text,
        None => if 0 <= k < texts.len() {
            texts[k]@
        } else {
            "<unknown>"@
        },
    }
    &&& found.replacement == if replacing {
        Some(edit.insert)
    } else {
        None::<String>
    }
}

/// `found` holds, file by file in the order of `files`, one match for each
/// edit of each listed file, and nothing else.
pub open spec fn matches_listed(
    paths: Seq<Seq<char>>,
    files: Seq<FileEdits>,
    answers: Seq<FileAnswer>,
    texts: Seq<String>,
    replacing: bool,
    found: Seq<SsrMatch>,
) -> bool
    decreases files.len(),
{
    if files.len() == 0 {
        found.len() == 0
    } else if file_listed(paths, files.last().file, answers.last()) {
        let base = found.len() - files.last().edits@.len();
        &&& base >= 0
        &&& matches_listed(
            paths,
            files.drop_last(),
            answers.drop_last(),
            texts,
            replacing,
            found.take(base),
        )
        &&& forall|k: int|
            base <= k < found.len() ==> match_reports(
                paths,
                files.last(),
                answers.last(),
                texts,
                replacing,
                k - base,
                k,
                #[trigger] found[k],
            )
    } else {
        matches_listed(paths, files.drop_last(), answers.drop_last(), texts, replacing, found)
    }
}

/// `changes` holds, in the order of `files`, one change for each listed
/// file: at its path, with its edits in lines and columns; and nothing
/// else.
pub open spec fn changes_listed(
    paths: Seq<Seq<char>>,
    files: Seq<FileEdits>,
    answers: Seq<FileAnswer>,
    changes: Seq<FileChange>,
) -> bool
    decreases files.len(),
{
    if files.len() == 0 {
        changes.len() == 0
    } else if file_listed(paths, files.last().file, answers.last()) {
        &&& changes.len() > 0
        &&& changes_listed(paths, files.drop_last(), answers.drop_last(), changes.drop_last())
        &&& changes.last().file_path@ == paths[files.last().file.0 as int]
        &&& edits_in_lines(table(answers.last().index->0), files.last().edits@) == Ok::<
            Seq<TextEdit>,
            QueryError,
        >(changes.last().edits@)
    } else {
        changes_listed(paths, files.drop_last(), answers.drop_last(), changes)
    }
}

/// What `matches_of` gives for `files` and the engine's answers for them:
/// the matches of all files, and with `replacing` their changes; or, where
/// the work ended at the file of the last answer, `OutOfBounds` because the
/// edits of that file reach outside its text.
pub open spec fn matches_answered(
    paths: Seq<Seq<char>>,
    files: Seq<FileEdits>,
    answers: Seq<FileAnswer>,
    texts: Seq<String>,
    replacing: bool,
    outcome: Result<(Vec<SsrMatch>, Vec<FileChange>), QueryError>,
) -> bool {
    match outcome {
        Ok(pair) => {
            &&& answers.len() == files.len()
            &&& matches_listed(paths, files, answers, texts, replacing, pair.0@)
            &&& if replacing {
                changes_listed(paths, files, answers, pair.1@)
            } else {
                pair.1@.len() == 0
            }
        },
        Err(e) => {
            &&& replacing
            &&& 0 < answers.len() <= files.len()
            &&& file_listed(paths, files[answers.len() - 1].file, answers.last())
            &&& edits_in_lines(
                table(answers.last().index->0),
                files[answers.len() - 1].edits@,
            ) is Err
        },
    }
}

/// Every match has one of the two forms: with a place, or without.
pub open spec fn all_formed(found: Seq<SsrMatch>) -> bool {
    forall|k: int| 0 <= k < found.len() ==> match_formed(#[trigger] found[k])
}

/// No match ends before it begins.
pub open spec fn all_in_order(found: Seq<SsrMatch>) -> bool {
    forall|k: int| 0 <= k < found.len() ==> match_in_order(#[trigger] found[k])
}

/// No match carries a replacement.
pub open spec fn none_replaces(found: Seq<SsrMatch>) -> bool {
    forall|k: int| 0 <= k < found.len() ==> (#[trigger] found[k]).replacement is None
}

/// What a search with replacement gives where it succeeds, given what the
/// engine answered: the matches and the edits of `matches_of`, the edits in
/// every case, and whether it was a dry run.
pub open spec fn replaced(
    paths: Seq<Seq<char>>,
    files: Seq<FileEdits>,
    answers: Seq<FileAnswer>,
    texts: Seq<String>,
    dry_run: bool,
    outcome: Result<SsrResult, QueryError>,
) -> bool {
    outcome matches Ok(r) ==> r.dry_run == dry_run && r.file_changes is Some && matches_answered(
        paths,
        files,
        answers,
        texts,
        true,
        Ok::<(Vec<SsrMatch>, Vec<FileChange>), QueryError>((r.matches, r.file_changes->0)),
    )
}

/// `found` holds one match for each of `texts`, in their order, with that
/// text and without place: the path is empty, lines and columns are 0, and
/// there is no replacement.
pub open spec fn without_place(texts: Seq<String>, found: Seq<SsrMatch>) -> bool {
    &&& found.len() == texts.len()
    &&& forall|k: int|
        0 <= k < found.len() ==> (#[trigger] found[k]).matched_text == texts[k] && match_formed(
            found[k],
        ) && found[k].file_path@.len() == 0 && found[k].line == 0 && found[k].column == 0
            && found[k].end_line == 0 && found[k].end_column == 0 && found[k].replacement
            is None
}

/// What a structural search gives for the matched texts `texts`: the
/// matches without place; or, where the engine gave the edits `files` of
/// the pattern as a rule, what those edits stand for, without replacements.
pub open spec fn search_answered(
    paths: Seq<Seq<char>>,
    texts: Seq<String>,
    files: Seq<FileEdits>,
    answers: Seq<FileAnswer>,
    outcome: Result<Vec<SsrMatch>, QueryError>,
) -> bool {
    outcome matches Ok(found) ==> {
        ||| without_place(texts, found@)
        ||| (answers.len() == files.len() && matches_listed(
            paths,
            files,
            answers,
            texts,
            false,
            found@,
        ))
    }
}

/// What the engine gave for one code action that comes with a diagnostic:
/// its label, and its edits file by file where it has edits.
pub struct FixAnswer {
    pub label: String,
    pub files: Option<Vec<FileEdits>>,
}

/// `info` is the code action that the engine describes by `raw`, without its
/// edits: its kind is its group, or `"refactor"` where it has none.
pub open spec fn assist_listed(raw: RawAssist, info: AssistInfo) -> bool {
    &&& info.id == raw.id
    &&& info.label == raw.label
    &&& info.target == raw.target
    &&& info.source_change is None
    &&& info.kind@ == match raw.group {
        Some(group) => group@,
        None => "refactor"@,
    }
}

/// What a query for the code actions at a cursor gives for the actions
/// `raws` of the engine: `Ok(None)` where there are none, else one for
/// each, in their order.
pub open spec fn assists_answered(
    raws: Seq<RawAssist>,
    found: Result<Option<Vec<AssistInfo>>, QueryError>,
) -> bool {
    match found {
        Ok(None) => raws.len() == 0,
        Ok(Some(v)) => raws.len() > 0 && v@.len() == raws.len() && forall|i: int|
            0 <= i < v@.len() ==> assist_listed(raws[i], #[trigger] v@[i]),
        Err(_) => false,
    }
}

/// What a query for completions gives where it succeeds: `Ok(None)` where
/// the engine offers none, else one for each of the engine's, in their
/// order.
pub open spec fn completions_answered(
    raws: Option<Seq<RawCompletion>>,
    found: Result<Option<Vec<CompletionItem>>, QueryError>,
) -> bool {
    match (raws, found) {
        (None, Ok(None)) => true,
        (Some(raws), Ok(Some(v))) => v@.len() == raws.len() && forall|i: int|
            0 <= i < v@.len() ==> completes(#[trigger] v@[i], raws[i]),
        _ => false,
    }
}

/// `item` is the item of an outline that the engine describes by `raw`, in
/// the file with the table of lines `t`.
pub open spec fn outline_item_of(t: LineTable, raw: RawNode, item: FileOutlineItem) -> bool {
    &&& item.name == raw.label
    &&& item.kind == raw.kind
    &&& item.detail == raw.detail
    &&& item.line == place_of(t, raw.start).0
    &&& item.end_line == place_of(t, raw.end).0
    &&& item.parent_idx == raw.parent
    &&& item.deprecated == raw.deprecated
}

/// What a query for the outline of a file gives where it succeeds: one item
/// for each of `nodes`, in their order.
pub open spec fn outline_answered(
    t: LineTable,
    nodes: Seq<RawNode>,
    outline: Result<Vec<FileOutlineItem>, QueryError>,
) -> bool {
    outline matches Ok(v) ==> v@.len() == nodes.len() && forall|i: int|
        0 <= i < v@.len() ==> outline_item_of(t, nodes[i], #[trigger] v@[i])
}

/// What the engine gave for one symbol of a search: its place, the name of
/// its kind, and the table of lines of its file where the file has a path
/// and the engine gave one.
pub struct HitAnswer {
    pub nav: NavTarget,
    pub kind: Option<String>,
    pub index: Option<LineIndex>,
}

/// `hit` is the hit that a symbol of a search amounts to.
pub open spec fn hit_reports(paths: Seq<Seq<char>>, answer: HitAnswer, hit: SymbolSearchResult) -> bool {
    &&& hit.name == answer.nav.name
    &&& hit.kind == answer.kind
    &&& hit.file_path@ == paths[answer.nav.file.0 as int]
    &&& (hit.line, hit.column) == place_of(table(answer.index->0), answer.nav.focus_start)
    &&& hit.container == answer.nav.container
    &&& hit.description == answer.nav.description
}

/// `found` holds, in the order of `answers`, one hit for each symbol in a
/// file that has a path and of which the engine gave the table of lines,
/// and nothing else.
pub open spec fn hits_listed(
    paths: Seq<Seq<char>>,
    answers: Seq<HitAnswer>,
    found: Seq<SymbolSearchResult>,
) -> bool
    decreases answers.len(),
{
    if answers.len() == 0 {
        found.len() == 0
    } else if answers.last().nav.file.0 < paths.len() && answers.last().index is Some {
        &&& found.len() > 0
        &&& hits_listed(paths, answers.drop_last(), found.drop_last())
        &&& hit_reports(paths, answers.last(), found.last())
    } else {
        hits_listed(paths, answers.drop_last(), found)
    }
}

/// What a search for symbols gives where it succeeds.
pub open spec fn hits_answered(
    paths: Seq<Seq<char>>,
    answers: Seq<HitAnswer>,
    found: Result<Vec<SymbolSearchResult>, QueryError>,
) -> bool {
    found matches Ok(v) ==> hits_listed(paths, answers, v@)
}

/// One diagnostic of the engine with its fixes made: its message, severity
/// and code, the start and end of its range, and its fixes.
pub struct DiagnosticGiven {
    pub message: String,
    pub severity: String,
    pub code: String,
    pub start: u32,
    pub end: u32,
    pub fixes: Vec<DiagnosticFix>,
}

/// `found` is the diagnostic that `given` amounts to in the file at `path`
/// with the table of lines `t`: at the lines and columns of its range, zeros
/// for an end of it that has no position.
pub open spec fn diagnostic_of(t: LineTable, path: Seq<char>, given: DiagnosticGiven, found: DiagnosticInfo) -> bool {
    &&& found.message == given.message
    &&& found.severity == given.severity
    &&& found.code == given.code
    &&& found.file_path@ == path
    &&& (found.line, found.column) == place_of(t, given.start)
    &&& (found.end_line, found.end_column) == place_of(t, given.end)
    &&& found.fixes == given.fixes
}

/// What the engine gave for one diagnostic: its message, severity and code,
/// the start and end of its range, and what it gave for each of the code
/// actions that come with it.
pub struct DiagnosticAnswer {
    pub message: String,
    pub severity: String,
    pub code: String,
    pub start: u32,
    pub end: u32,
    pub fixes: Seq<FixAnswer>,
}

/// `found` is the diagnostic that `answer` amounts to in the file at `path`
/// with the table of lines `t`.
pub open spec fn diagnostic_reports(
    paths: Seq<Seq<char>>,
    texts: Map<int, Seq<char>>,
    t: LineTable,
    path: Seq<char>,
    answer: DiagnosticAnswer,
    found: DiagnosticInfo,
) -> bool {
    &&& found.message == answer.message
    &&& found.severity == answer.severity
    &&& found.code == answer.code
    &&& found.file_path@ == path
    &&& (found.line, found.column) == place_of(t, answer.start)
    &&& (found.end_line, found.end_column) == place_of(t, answer.end)
    &&& fixes_listed(paths, texts, answer.fixes, found.fixes@)
}

/// `found` holds one diagnostic for each of `answers`, in their order.
pub open spec fn diagnostics_listed(
    paths: Seq<Seq<char>>,
    texts: Map<int, Seq<char>>,
    t: LineTable,
    path: Seq<char>,
    answers: Seq<DiagnosticAnswer>,
    found: Seq<DiagnosticInfo>,
) -> bool {
    &&& found.len() == answers.len()
    &&& forall|i: int|
        0 <= i < found.len() ==> diagnostic_reports(
            paths,
            texts,
            t,
            path,
            answers[i],
            #[trigger] found[i],
        )
}

/// What a query for the diagnostics of a file gives where it succeeds: one
/// diagnostic for each of `answers`, in their order.
pub open spec fn diagnostics_answered(
    paths: Seq<Seq<char>>,
    texts: Map<int, Seq<char>>,
    t: LineTable,
    path: Seq<char>,
    answers: Seq<DiagnosticAnswer>,
    outcome: Result<Vec<DiagnosticInfo>, QueryError>,
) -> bool {
    outcome matches Ok(found) ==> diagnostics_listed(paths, texts, t, path, answers, found@)
}

/// The table of lines of `file` as an engine that holds `texts` gives it.
pub open spec fn engine_table(texts: Map<int, Seq<char>>, file: FileHandle) -> LineTable {
    table_of(encode_utf8(texts[file.0 as int]))
}

/// `changes` is what the edits `files` of the engine come to, for an engine
/// that holds `texts`: `UnknownFile` where one of the files has no path;
/// no change, and no error, where there is no file; else one change for
/// each file, in their order, at the path of the file and with each edit at
/// the lines and columns of its offsets in the text of the file. Edits that
/// reach outside their text are `OutOfBounds`, and the engine may fail.
pub open spec fn changes_restated(
    paths: Seq<Seq<char>>,
    texts: Map<int, Seq<char>>,
    files: Seq<FileEdits>,
    changes: Result<Vec<FileChange>, QueryError>,
) -> bool {
    if has_stray_file(paths, files) {
        changes matches Err(e) && e is UnknownFile
    } else if files.len() == 0 {
        changes matches Ok(v) && v@.len() == 0
    } else {
        match changes {
            Ok(v) => v@.len() == files.len() && forall|i: int|
                0 <= i < v@.len() ==> file_change_of(
                    paths,
                    engine_table(texts, files[i].file),
                    files[i],
                ) == Ok::<(Seq<char>, Seq<TextEdit>), QueryError>(
                    ((#[trigger] v@[i]).file_path@, v@[i].edits@),
                ),
            Err(e) => e is EngineQueryFailed || (e is OutOfBounds && exists|i: int|
                0 <= i < files.len() && (#[trigger] file_change_of(
                    paths,
                    engine_table(texts, files[i].file),
                    files[i],
                )) is Err),
        }
    }
}

/// What `change_set_from_engine_edits` makes of the engine's edits and the
/// engine's tables of lines is what the edits come to.
proof fn lemma_changes_restated(
    paths: Seq<Seq<char>>,
    texts: Map<int, Seq<char>>,
    files: Seq<FileEdits>,
    indexes: Seq<LineIndex>,
    changes: Result<Vec<FileChange>, QueryError>,
)
    requires
        indexes.len() == files.len(),
        forall|j: int| 0 <= j < files.len() ==> (#[trigger] files[j]).file.0 < paths.len(),
        forall|j: int|
            0 <= j < files.len() ==> table(#[trigger] indexes[j]) == engine_table(
                texts,
                files[j].file,
            ),
        changes matches Ok(v) ==> v@.len() == files.len() && forall|i: int|
            0 <= i < v@.len() ==> file_change_of(paths, table(indexes[i]), files[i]) == Ok::<
                (Seq<char>, Seq<TextEdit>),
                QueryError,
            >(((#[trigger] v@[i]).file_path@, v@[i].edits@)),
        changes matches Err(e) ==> e is OutOfBounds && exists|i: int|
            0 <= i < files.len() && (#[trigger] file_change_of(paths, table(indexes[i]), files[i]))
                is Err,
    ensures
        changes_restated(paths, texts, files, changes),
{
    assert(!has_stray_file(paths, files));
    match changes {
        Ok(v) => {
            assert forall|i: int| 0 <= i < v@.len() implies file_change_of(
                paths,
                engine_table(texts, files[i].file),
                files[i],
            ) == Ok::<(Seq<char>, Seq<TextEdit>), QueryError>(
                ((#[trigger] v@[i]).file_path@, v@[i].edits@),
            ) by {
                assert(table(indexes[i]) == engine_table(texts, files[i].file));
            }
        },
        Err(e) => {
            let j = choose|j: int|
                0 <= j < files.len() && (#[trigger] file_change_of(
                    paths,
                    table(indexes[j]),
                    files[j],
                )) is Err;
            assert(table(indexes[j]) == engine_table(texts, files[j].file));
            assert(file_change_of(paths, engine_table(texts, files[j].file), files[j]) is Err);
        },
    }
}

/// A code action with its edits as plain values: its identifier, its edits
/// file by file where it has any, and whether they hold placeholders.
pub struct ResolvedAssist {
    pub id: String,
    pub files: Option<Vec<FileEdits>>,
    pub is_snippet: bool,
}

/// No range of the edits of `actions` ends before it begins.
pub open spec fn actions_ordered(actions: Seq<ResolvedAssist>) -> bool {
    forall|i: int|
        0 <= i < actions.len() ==> ((#[trigger] actions[i]).files matches Some(files)
            ==> ranges_ordered(files@))
}

/// None of `actions` has the identifier `id`.
pub open spec fn no_such_action(actions: Seq<ResolvedAssist>, id: Seq<char>) -> bool {
    forall|j: int| 0 <= j < actions.len() ==> (#[trigger] actions[j]).id@ != id
}

/// Action `i` is the first of `actions` with the identifier `id`.
pub open spec fn first_such_action(actions: Seq<ResolvedAssist>, id: Seq<char>, i: int) -> bool {
    &&& 0 <= i < actions.len()
    &&& actions[i].id@ == id
    &&& no_such_action(actions.take(i), id)
}

/// `change` is what applying the code action `action` comes to:
/// `EngineQueryFailed` where it has no edits, else its edits as changes to
/// files.
pub open spec fn assist_applied(
    paths: Seq<Seq<char>>,
    texts: Map<int, Seq<char>>,
    action: ResolvedAssist,
    change: Result<Option<AssistSourceChange>, QueryError>,
) -> bool {
    match action.files {
        None => change matches Err(e) && e is EngineQueryFailed,
        Some(files) => match change {
            Ok(Some(c)) => c.is_snippet == action.is_snippet && changes_restated(
                paths,
                texts,
                files@,
                Ok::<Vec<FileChange>, QueryError>(c.file_changes),
            ),
            Ok(None) => false,
            Err(e) => changes_restated(paths, texts, files@, Err::<Vec<FileChange>, QueryError>(e)),
        },
    }
}

/// `change` is what applying the code action `id` comes to, given the
/// actions on offer: `Ok(None)` where none has this identifier, else what
/// applying the first that has it comes to.
pub open spec fn assist_chosen(
    paths: Seq<Seq<char>>,
    texts: Map<int, Seq<char>>,
    actions: Seq<ResolvedAssist>,
    id: Seq<char>,
    change: Result<Option<AssistSourceChange>, QueryError>,
) -> bool {
    &&& no_such_action(actions, id) ==> change == Ok::<Option<AssistSourceChange>, QueryError>(None)
    &&& forall|i: int| #[trigger]
        first_such_action(actions, id, i) ==> assist_applied(paths, texts, actions[i], change)
}

/// `renamed` is what the engine's answer to a rename comes to: `Ok(None)`
/// where it refuses, else its edits as changes to files, no two of them to
/// one file.
pub open spec fn rename_restated(
    paths: Seq<Seq<char>>,
    texts: Map<int, Seq<char>>,
    edits: Option<Seq<FileEdits>>,
    renamed: Result<Option<RenameResult>, QueryError>,
) -> bool {
    match edits {
        None => renamed matches Ok(None),
        Some(files) => match renamed {
            Ok(Some(r)) => changes_restated(
                paths,
                texts,
                files,
                Ok::<Vec<FileChange>, QueryError>(r.file_changes),
            ) && forall|i: int, j: int|
                0 <= i < j < r.file_changes@.len() ==> (#[trigger] r.file_changes@[i]).file_path@
                    != (#[trigger] r.file_changes@[j]).file_path@,
            Ok(None) => false,
            Err(e) => changes_restated(paths, texts, files, Err::<Vec<FileChange>, QueryError>(e)),
        },
    }
}

/// One of `files` has no path.
pub open spec fn has_stray_file(paths: Seq<Seq<char>>, files: Seq<FileEdits>) -> bool {
    exists|i: int| 0 <= i < files.len() && (#[trigger] files[i]).file.0 >= paths.len()
}

/// `fix` is the fix that a code action with edits amounts to, for an engine
/// that holds `texts`: it has the label of the action, and one change for
/// each file of its edits, which restates the edits to that file at the
/// lines and columns of their offsets.
pub open spec fn fix_restates(
    paths: Seq<Seq<char>>,
    texts: Map<int, Seq<char>>,
    answer: FixAnswer,
    fix: DiagnosticFix,
) -> bool {
    &&& answer.files is Some
    &&& fix.label == answer.label
    &&& fix.file_changes@.len() == answer.files->0@.len()
    &&& changes_restated(
        paths,
        texts,
        answer.files->0@,
        Ok::<Vec<FileChange>, QueryError>(fix.file_changes),
    )
    &&& forall|k: int|
        0 <= k < fix.file_changes@.len() ==> restates(
            paths,
            answer.files->0@[k],
            #[trigger] fix.file_changes@[k],
        )
}

/// `found` holds, in the order of `answers`, the fix of each code action
/// that has edits, and nothing else.
pub open spec fn fixes_listed(
    paths: Seq<Seq<char>>,
    texts: Map<int, Seq<char>>,
    answers: Seq<FixAnswer>,
    found: Seq<DiagnosticFix>,
) -> bool
    decreases answers.len(),
{
    if answers.len() == 0 {
        found.len() == 0
    } else if answers.last().files is Some {
        &&& found.len() > 0
        &&& fixes_listed(paths, texts, answers.drop_last(), found.drop_last())
        &&& fix_restates(paths, texts, answers.last(), found.last())
    } else {
        fixes_listed(paths, texts, answers.drop_last(), found)
    }
}

/// What `fixes_of` gives for the code actions `answers`, for an engine that
/// holds `texts`: their fixes; or, where the work ended at the last of
/// them, the error that its edits come to, which is `UnknownFile` exactly
/// where one of its files has no path.
pub open spec fn fixes_answered(
    paths: Seq<Seq<char>>,
    texts: Map<int, Seq<char>>,
    answers: Seq<FixAnswer>,
    outcome: Result<Vec<DiagnosticFix>, QueryError>,
) -> bool {
    match outcome {
        Ok(found) => fixes_listed(paths, texts, answers, found@),
        Err(e) => answers.len() > 0 && answers.last().files is Some && (e is UnknownFile
            <==> has_stray_file(paths, answers.last().files->0@)) && changes_restated(
            paths,
            texts,
            answers.last().files->0@,
            Err::<Vec<FileChange>, QueryError>(e),
        ),
    }
}

/// What the engine gave for one place of a definition: the place, the table
/// of lines of its file, the name to go by for the symbol, and the text of
/// the file. Where the file has no path or the engine gave no table, the
/// table and the text are `None`; where the place has no position in the
/// text, the name is `Unavailable`.
pub struct DefinitionAnswer {
    pub nav: NavTarget,
    pub index: Option<LineIndex>,
    pub moniker: RawMoniker,
    pub text: Option<Result<String, String>>,
}

/// What the engine gave for a file is true of an engine that holds `texts`:
/// a table of lines is the table of the text of the file, and a text is
/// that text.
pub open spec fn given_by(
    texts: Map<int, Seq<char>>,
    file: FileHandle,
    index: Option<LineIndex>,
    text: Option<Result<String, String>>,
) -> bool {
    &&& index matches Some(i) ==> table(i) == engine_table(texts, file)
    &&& text matches Some(Ok(t)) ==> t@ == texts[file.0 as int]
}

/// What the engine gave for each place of a definition is true of an engine
/// that holds `texts`.
pub open spec fn definitions_given(texts: Map<int, Seq<char>>, answers: Seq<DefinitionAnswer>) -> bool {
    forall|i: int|
        0 <= i < answers.len() ==> given_by(
            texts,
            (#[trigger] answers[i]).nav.file,
            answers[i].index,
            answers[i].text,
        )
}

/// What the engine gave for each place is true of an engine that holds
/// `texts`.
pub open spec fn places_given(texts: Map<int, Seq<char>>, answers: Seq<PlaceAnswer>) -> bool {
    forall|i: int|
        0 <= i < answers.len() ==> given_by(
            texts,
            (#[trigger] answers[i]).nav.file,
            answers[i].index,
            answers[i].text,
        )
}

/// What the engine gave for each call item is true of an engine that holds
/// `texts`.
pub open spec fn calls_given(texts: Map<int, Seq<char>>, answers: Seq<CallAnswer>) -> bool {
    forall|i: int|
        0 <= i < answers.len() ==> given_by(
            texts,
            (#[trigger] answers[i]).nav.file,
            answers[i].index,
            None,
        )
}

/// What the engine gave for each symbol of a search is true of an engine
/// that holds `texts`.
pub open spec fn hits_given(texts: Map<int, Seq<char>>, answers: Seq<HitAnswer>) -> bool {
    forall|i: int|
        0 <= i < answers.len() ==> given_by(
            texts,
            (#[trigger] answers[i]).nav.file,
            answers[i].index,
            None,
        )
}

/// What the engine gave for each file of the edits `files` is true of an
/// engine that holds `held`.
pub open spec fn edits_given(held: Map<int, Seq<char>>, files: Seq<FileEdits>, answers: Seq<FileAnswer>) -> bool {
    forall|i: int|
        0 <= i < answers.len() && i < files.len() ==> given_by(
            held,
            files[i].file,
            (#[trigger] answers[i]).index,
            answers[i].text,
        )
}

/// What the engine gave for each file of the uses `files` is true of an
/// engine that holds `held`.
pub open spec fn ranges_given(held: Map<int, Seq<char>>, files: Seq<FileRanges>, answers: Seq<FileAnswer>) -> bool {
    forall|i: int|
        0 <= i < answers.len() && i < files.len() ==> given_by(
            held,
            files[i].file,
            (#[trigger] answers[i]).index,
            answers[i].text,
        )
}

/// What the engine gave for the declaration and for each file of the uses
/// of one search for references is true of an engine that holds `held`.
pub open spec fn search_given(
    held: Map<int, Seq<char>>,
    declared: Option<PlaceAnswer>,
    files: Seq<FileRanges>,
    answers: Seq<FileAnswer>,
) -> bool {
    &&& declared matches Some(place) ==> given_by(held, place.nav.file, place.index, place.text)
    &&& ranges_given(held, files, answers)
}

/// `definition` is what a place amounts to: at the path of its file, in the
/// module that the name of the symbol tells, with the text of the whole
/// item for content.
pub open spec fn defines(paths: Seq<Seq<char>>, answer: DefinitionAnswer, definition: DefinitionInfo) -> bool {
    &&& answer.text is Some
    &&& definition.file_path@ == paths[answer.nav.file.0 as int]
    &&& definition.module@ == module_name_of(answer.moniker, answer.nav.container)
    &&& definition.content@ == definition_content_of(
        answer.text->0,
        answer.nav.full_start,
        answer.nav.full_end,
    )
    &&& definition == definition_of(
        table(answer.index->0),
        answer.nav,
        definition.file_path,
        definition.module,
        definition.content,
    )
}

/// `found` holds, in the order of `answers`, one definition for each place
/// of which the engine gave the table of lines, and nothing else.
pub open spec fn definitions_listed(
    paths: Seq<Seq<char>>,
    answers: Seq<DefinitionAnswer>,
    found: Seq<DefinitionInfo>,
) -> bool
    decreases answers.len(),
{
    if answers.len() == 0 {
        found.len() == 0
    } else if answers.last().index is Some {
        &&& found.len() > 0
        &&& definitions_listed(paths, answers.drop_last(), found.drop_last())
        &&& defines(paths, answers.last(), found.last())
    } else {
        definitions_listed(paths, answers.drop_last(), found)
    }
}

/// Each place of `answers` lies in a file that has a path.
pub open spec fn all_have_paths(paths: Seq<Seq<char>>, answers: Seq<DefinitionAnswer>) -> bool {
    forall|i: int| 0 <= i < answers.len() ==> (#[trigger] answers[i]).nav.file.0 < paths.len()
}

/// What a search for definitions comes to, given what the engine answered
/// for the places: `UnknownFile` where one of them lies in a file without
/// path, else the definitions of all places.
pub open spec fn definitions_answered(
    paths: Seq<Seq<char>>,
    answers: Seq<DefinitionAnswer>,
    found: Result<Option<Vec<DefinitionInfo>>, QueryError>,
) -> bool {
    if all_have_paths(paths, answers) {
        found matches Ok(Some(v)) && definitions_listed(paths, answers, v@)
    } else {
        found matches Err(e) && e is UnknownFile
    }
}

/// An answer with a table of lines has a well-formed one, and the text
/// that was asked for with it.
pub open spec fn answers_formed(answers: Seq<DefinitionAnswer>) -> bool {
    forall|i: int|
        0 <= i < answers.len() ==> ((#[trigger] answers[i]).index matches Some(index) ==> table(
            index,
        ).wf() && answers[i].text is Some)
}

/// What the engine gave for one place: the place, the table of lines of its
/// file, and the text of the file. Table and text are `None` where the
/// engine was not asked or gave none.
pub struct PlaceAnswer {
    pub nav: NavTarget,
    pub index: Option<LineIndex>,
    pub text: Option<Result<String, String>>,
}

/// A place is listed where its file has a path and the engine gave the
/// table of lines of the file.
pub open spec fn place_listed(paths: Seq<Seq<char>>, answer: PlaceAnswer) -> bool {
    answer.nav.file.0 < paths.len() && answer.index is Some
}

/// `definition` is what a listed place amounts to in a summary: at the path
/// of its file, in the module that is the name of what contains the symbol,
/// with the text of the whole item for content.
pub open spec fn summarizes(paths: Seq<Seq<char>>, answer: PlaceAnswer, definition: DefinitionInfo) -> bool {
    &&& definition.file_path@ == paths[answer.nav.file.0 as int]
    &&& definition.module@ == match answer.nav.container {
        Some(name) => name@,
        None => Seq::<char>::empty(),
    }
    &&& definition.content@ == match answer.text {
        Some(text) => plain_content_of(text, answer.nav.full_start, answer.nav.full_end),
        None => Seq::<char>::empty(),
    }
    &&& definition == definition_of(
        table(answer.index->0),
        answer.nav,
        definition.file_path,
        definition.module,
        definition.content,
    )
}

/// `found` holds, in the order of `answers`, what each listed place amounts
/// to, and nothing else.
pub open spec fn definitions_from(
    paths: Seq<Seq<char>>,
    answers: Seq<PlaceAnswer>,
    found: Seq<DefinitionInfo>,
) -> bool
    decreases answers.len(),
{
    if answers.len() == 0 {
        found.len() == 0
    } else if place_listed(paths, answers.last()) {
        &&& found.len() > 0
        &&& definitions_from(paths, answers.drop_last(), found.drop_last())
        &&& summarizes(paths, answers.last(), found.last())
    } else {
        definitions_from(paths, answers.drop_last(), found)
    }
}

/// The cursor after its symbol was looked for in the text on disk. Without
/// a symbol or without the text the cursor stays as it is.
pub open spec fn cursor_on_disk(raw: CursorCoordinates, disk_text: Option<&str>) -> CursorCoordinates {
    match (raw.symbol, disk_text) {
        (Some(_), Some(text)) => resolved(raw, text.spec_bytes()),
        _ => raw,
    }
}

/// A queued change names a path that is no file of the workspace.
pub open spec fn stray_change(watcher: FileWatcher) -> bool {
    exists|i: int|
        0 <= i < watcher.pending().len() && !watcher.knows(#[trigger] watcher.pending()[i].0)
}

/// The error that a query at a cursor ends in whatever the engine holds:
/// a queued change to an unknown path, or a cursor in an unknown file, is
/// `UnknownFile`; then a line or column of 0 is `InvalidCoordinate`; then a
/// symbol to look for without the text on disk to look in is `IoError`.
pub open spec fn setup_error(watcher: FileWatcher, raw: CursorCoordinates, disk_text: Option<&str>) -> Option<
    ErrorKind,
> {
    if stray_change(watcher) || !watcher.knows(raw.file_path@) {
        Some(ErrorKind::UnknownFile)
    } else if raw.line == 0 || raw.column == 0 {
        Some(ErrorKind::InvalidCoordinate)
    } else if raw.symbol is Some && disk_text is None {
        Some(ErrorKind::IoError)
    } else {
        None
    }
}

/// What every query at a cursor promises of its errors: those that
/// `setup_error` names come as named, and `InvalidCoordinate` and `IoError`
/// come in no other case.
pub open spec fn reports_setup<T>(
    result: Result<T, QueryError>,
    watcher: FileWatcher,
    raw: CursorCoordinates,
    disk_text: Option<&str>,
) -> bool {
    &&& setup_error(watcher, raw, disk_text) matches Some(kind) ==> (result matches Err(e)
        && e.kind() == kind)
    &&& (result matches Err(e) && (e.kind() == ErrorKind::InvalidCoordinate || e.kind()
        == ErrorKind::IoError)) ==> setup_error(watcher, raw, disk_text) == Some(
        result->Err_0.kind(),
    )
}

/// What every query does before anything else: it hands the queued changes
/// to the engine and empties the queue. Where a queued change names a path
/// that is no file of the workspace the engine is told of nothing.
pub open spec fn flushes(before: RustAnalyzerish, after: RustAnalyzerish) -> bool {
    &&& after.watcher().paths() == before.watcher().paths()
    &&& after.watcher().pending().len() == 0
    &&& if stray_change(before.watcher()) {
        after.engine() == before.engine()
    } else {
        flushed(
            host_texts(before.engine()),
            host_texts(after.engine()),
            resolved_updates(before.watcher().paths(), before.watcher().pending()),
        )
    }
}

/// The offset of the cursor of a query in the text that the engine holds
/// for its file, once the cursor was moved onto its symbol; or the error
/// for a position that this text does not have.
pub open spec fn engine_offset(session: RustAnalyzerish, raw: CursorCoordinates, disk_text: Option<&str>) -> Result<
    u32,
    QueryError,
> {
    table_of(
        encode_utf8(
            host_texts(session.engine())[position_of(session.watcher().paths(), raw.file_path@)],
        ),
    ).offset_of(cursor_on_disk(raw, disk_text).line, cursor_on_disk(raw, disk_text).column)
}

/// What a query at a cursor promises that raises these errors nowhere
/// else: `UnknownFile` comes only as `setup_error` names it, and
/// `OutOfBounds` only for a position that the text of the file, as the
/// engine holds it after the query, does not have.
pub open spec fn reports_lookup<T>(
    result: Result<T, QueryError>,
    before: RustAnalyzerish,
    after: RustAnalyzerish,
    raw: CursorCoordinates,
    disk_text: Option<&str>,
) -> bool {
    &&& (result matches Err(e) && e is UnknownFile) ==> setup_error(
        before.watcher(),
        raw,
        disk_text,
    ) == Some(ErrorKind::UnknownFile)
    &&& (result matches Err(e) && e is OutOfBounds) ==> (setup_error(
        before.watcher(),
        raw,
        disk_text,
    ) is None && engine_offset(after, raw, disk_text) is Err)
}

/// The cursor of a query can be put to the engine: no error stands in the
/// way, and the text of the file, as the engine holds it after the query,
/// has the position.
pub open spec fn past_setup(
    before: RustAnalyzerish,
    after: RustAnalyzerish,
    raw: CursorCoordinates,
    disk_text: Option<&str>,
) -> bool {
    setup_error(before.watcher(), raw, disk_text) is None && engine_offset(after, raw, disk_text)
        is Ok
}

/// What every query at a cursor promises of a position that the text of the
/// file, as the engine holds it after the query, does not have: the query
/// ends in an error, which is `OutOfBounds` unless the engine failed.
pub open spec fn reports_bounds<T>(
    result: Result<T, QueryError>,
    before: RustAnalyzerish,
    after: RustAnalyzerish,
    raw: CursorCoordinates,
    disk_text: Option<&str>,
) -> bool {
    (setup_error(before.watcher(), raw, disk_text) is None && engine_offset(after, raw, disk_text)
        is Err) ==> (result matches Err(e) && (e is OutOfBounds || e is EngineQueryFailed))
}

impl RustAnalyzerish {
    /// The files of the session.
    pub closed spec fn watcher(&self) -> FileWatcher {
        self.file_watcher
    }

    /// The engine of the session.
    pub closed spec fn engine(&self) -> AnalysisHost {
        self.host
    }

    /// The session is well formed: its files are, and the engine holds each
    /// of them.
    pub open spec fn wf(&self) -> bool {
        self.watcher().wf() && self.watcher().held_in(host_texts(self.engine()))
    }

    /// `analysis` holds every file of the session.
    pub open spec fn served_by(&self, analysis: Analysis) -> bool {
        self.watcher().held_in(analysis_texts(analysis))
    }

    /// `query` can be put to the engine: its snapshot holds every file of
    /// the session, and its offset lies in the text of its file and cuts
    /// no character.
    spec fn ready(&self, query: Prepared) -> bool {
        &&& self.served_by(query.analysis)
        &&& query.file.0 < MAX_FILES
        &&& in_text(analysis_texts(query.analysis), query.file, query.offset)
    }

    /// A session on a loaded engine and the files loaded into it. The
    /// engine must hold every file of `file_watcher`, and no snapshot of it
    /// may be out: the engine waits with every change until the last
    /// snapshot is dropped.
    pub fn new(host: AnalysisHost, file_watcher: FileWatcher) -> (session: RustAnalyzerish)
        requires
            file_watcher.wf(),
            file_watcher.held_in(host_texts(host)),
        ensures
            session.wf(),
            session.watcher() == file_watcher,
            session.engine() == host,
    {
        RustAnalyzerish { host, file_watcher }
    }

    /// The files of the session.
    pub fn file_watcher(&self) -> (watcher: &FileWatcher)
        ensures
            *watcher == self.watcher(),
    {
        &self.file_watcher
    }

    /// Notes a change seen on disk; the engine learns of it before the next
    /// query. The engine measures texts in 32 bits, so `content` must be
    /// shorter than `u32::MAX` bytes.
    pub fn queue_change(&mut self, path: &str, content: Option<String>)
        requires
            old(self).wf(),
            short(crate::tracker::text_of(content)),
        ensures
            final(self).wf(),
            final(self).watcher().paths() == old(self).watcher().paths(),
            final(self).watcher().pending() == old(self).watcher().pending().push(
                (path@, crate::tracker::text_of(content)),
            ),
            final(self).engine() == old(self).engine(),
    {
        self.file_watcher.queue_change(path, content);
    }

    /// The offset of `cursor` in the text that `line_index` is the table
    /// of: `InvalidCoordinate` for a line or column of 0, `OutOfBounds` for
    /// a position that the text does not have.
    pub fn validate_and_convert_cursor(cursor: &CursorCoordinates, line_index: &LineIndex) -> (offset:
        Result<u32, QueryError>)
        ensures
            offset == table(*line_index).offset_of(cursor.line, cursor.column),
    {
        to_engine(line_index, cursor.line, cursor.column)
    }

    /// Makes a cursor ready for the engine: hands the queued changes to the
    /// engine, finds the file, rejects a line or column of 0, moves the
    /// cursor onto its symbol in `disk_text`, and converts the position to
    /// an offset in the file as the engine holds it. A position that this
    /// text does not have is `OutOfBounds`.
    ///
    /// `disk_text` is the text of the file as it is on disk now; it is
    /// needed where the cursor names a symbol.
    fn prepare(&mut self, raw_cursor: &CursorCoordinates, disk_text: Option<&str>) -> (query: Result<
        Prepared,
        QueryError,
    >)
        requires
            old(self).wf(),
        ensures
            final(self).wf(),
            flushes(*old(self), *final(self)),
            reports_setup(query, old(self).watcher(), *raw_cursor, disk_text),
            reports_bounds(query, *old(self), *final(self), *raw_cursor, disk_text),
            reports_lookup(query, *old(self), *final(self), *raw_cursor, disk_text),
            query matches Err(e) ==> !(e is EngineQueryFailed) || setup_error(
                old(self).watcher(),
                *raw_cursor,
                disk_text,
            ) is None,
            past_setup(*old(self), *final(self), *raw_cursor, disk_text) ==> query is Ok || (
            query matches Err(e) && e is EngineQueryFailed),
            query matches Ok(q) ==> final(self).ready(q) && analysis_texts(q.analysis) == host_texts(
                final(self).engine(),
            ) && q.cursor == cursor_on_disk(*raw_cursor, disk_text) && q.file.0
                < final(self).watcher().paths().len() && final(self).watcher().paths()[q.file.0 as int]
                == raw_cursor.file_path@ && table(q.index).wf() && table(q.index) == table_of(
                encode_utf8(analysis_texts(q.analysis)[q.file.0 as int]),
            ) && engine_offset(*final(self), *raw_cursor, disk_text) == Ok::<u32, QueryError>(
                q.offset,
            ) && q.file.0 == position_of(final(self).watcher().paths(), raw_cursor.file_path@)
                && final(self).watcher().knows(raw_cursor.file_path@),
    {
        match self.file_watcher.drain_and_apply_changes(&mut self.host) {
            Err(e) => {
                return Err(QueryError::UnknownFile);
            },
            Ok(()) => {},
        }
        let file = match self.file_watcher.get_file_id(raw_cursor.file_path.as_str()) {
            Ok(file) => file,
            Err(e) => {
                return Err(QueryError::UnknownFile);
            },
        };
        if raw_cursor.line == 0 || raw_cursor.column == 0 {
            return Err(QueryError::InvalidCoordinate);
        }
        let cursor = match &raw_cursor.symbol {
            None => raw_cursor.duplicate(),
            Some(_) => match disk_text {
                None => {
                    return Err(QueryError::IoError("the text of the file was not read".to_owned()));
                },
                Some(text) => {
                    proof {
                        lemma_resolved_on_symbol(*raw_cursor, text.spec_bytes());
                    }
                    raw_cursor.resolve_coordinates(text)
                },
            },
        };
        let analysis = host_analysis(&self.host);
        let index = match analysis_line_index(&analysis, file) {
            Ok(index) => index,
            Err(detail) => {
                return Err(QueryError::EngineQueryFailed(detail));
            },
        };
        let offset = match to_engine(&index, cursor.line, cursor.column) {
            Ok(offset) => offset,
            Err(e) => {
                return Err(e);
            },
        };
        proof {
            let bytes = encode_utf8(analysis_texts(analysis)[file.0 as int]);
            encode_utf8_valid_utf8(analysis_texts(analysis)[file.0 as int]);
            lemma_offset_on_boundary(bytes, cursor.line, cursor.column);
        }
        Ok(Prepared { analysis, file, offset, cursor, index })
    }

    /// Makes a cursor ready for a caller that puts a question to the engine
    /// itself: hands the queued changes to the engine, finds the file,
    /// rejects a line or column of 0, moves the cursor onto its symbol in
    /// `disk_text`, and converts the position to an offset in the file as
    /// the engine holds it. A position that this text does not have is
    /// `OutOfBounds`. The query borrows the session as long as it lives.
    ///
    /// `disk_text` is the text of the file as it is on disk now; it is
    /// needed where the cursor names a symbol.
    pub fn setup_cursor_analysis<'a>(
        &'a mut self,
        raw_cursor: &CursorCoordinates,
        disk_text: Option<&str>,
    ) -> (query: Result<CursorQuery<'a>, QueryError>)
        requires
            old(self).wf(),
        ensures
            final(self).wf(),
            flushes(*old(self), *final(self)),
            reports_setup(query, old(self).watcher(), *raw_cursor, disk_text),
            reports_bounds(query, *old(self), *final(self), *raw_cursor, disk_text),
            reports_lookup(query, *old(self), *final(self), *raw_cursor, disk_text),
            past_setup(*old(self), *final(self), *raw_cursor, disk_text) ==> query is Ok || (
            query matches Err(e) && e is EngineQueryFailed),
            query matches Ok(q) ==> q.wf() && q.session() == *final(self) && analysis_texts(
                q.snapshot(),
            ) == host_texts(final(self).engine()) && q.resolved_cursor() == cursor_on_disk(
                *raw_cursor,
                disk_text,
            ) && q.handle().0 == position_of(final(self).watcher().paths(), raw_cursor.file_path@)
                && final(self).watcher().knows(raw_cursor.file_path@) && engine_offset(
                *final(self),
                *raw_cursor,
                disk_text,
            ) == Ok::<u32, QueryError>(q.place()),
    {
        match self.prepare(raw_cursor, disk_text) {
            Err(e) => Err(e),
            Ok(prepared) => Ok(CursorQuery { session: &*self, prepared }),
        }
    }

    /// The changes that the engine's edits amount to, with the tables of
    /// lines that the engine holds for the files. A handle without path
    /// makes the result `UnknownFile`, whatever else may be wrong.
    pub fn file_changes(&self, analysis: &Analysis, files: &Vec<FileEdits>) -> (changes: Result<
        Vec<FileChange>,
        QueryError,
    >)
        requires
            self.wf(),
            self.served_by(*analysis),
        ensures
            changes_restated(self.watcher().paths(), analysis_texts(*analysis), files@, changes),
            files@.len() == 0 ==> (changes matches Ok(v) && v@.len() == 0),
            changes matches Ok(v) ==> !ranges_ordered(files@) || edits_ordered(v@),
            (changes matches Err(e) && e is UnknownFile) <==> exists|i: int|
                0 <= i < files@.len() && (#[trigger] files@[i]).file.0
                    >= self.watcher().paths().len(),
            changes matches Err(e) ==> e is UnknownFile || e is EngineQueryFailed || e
                is OutOfBounds,
            changes matches Ok(v) ==> v@.len() == files@.len() && forall|i: int|
                0 <= i < v@.len() ==> restates(
                    self.watcher().paths(),
                    files@[i],
                    #[trigger] v@[i],
                ),
    {
        let ghost paths = self.watcher().paths();
        let ghost texts = analysis_texts(*analysis);
        let count = self.file_watcher.file_count();
        let mut indexes: Vec<LineIndex> = Vec::new();
        let mut k: usize = 0;
        while k < files.len()
            invariant
                k <= files@.len(),
                count == self.watcher().paths().len(),
                forall|j: int| 0 <= j < k ==> (#[trigger] files@[j]).file.0 < count,
            decreases files.len() - k,
        {
            if files[k].file.0 as usize >= count {
                return Err(QueryError::UnknownFile);
            }
            k = k + 1;
        }
        let mut i: usize = 0;
        while i < files.len()
            invariant
                i <= files@.len(),
                indexes@.len() == i,
                self.wf(),
                self.served_by(*analysis),
                texts == analysis_texts(*analysis),
                count == self.watcher().paths().len(),
                count <= MAX_FILES,
                forall|j: int| 0 <= j < files@.len() ==> (#[trigger] files@[j]).file.0 < count,
                forall|j: int| 0 <= j < i ==> (#[trigger] table(indexes@[j])).wf(),
                forall|j: int|
                    0 <= j < i ==> table(#[trigger] indexes@[j]) == engine_table(
                        texts,
                        files@[j].file,
                    ),
            decreases files.len() - i,
        {
            match analysis_line_index(analysis, files[i].file) {
                Ok(index) => {
                    indexes.push(index);
                },
                Err(detail) => {
                    return Err(QueryError::EngineQueryFailed(detail));
                },
            }
            i = i + 1;
        }
        let changes = change_set_from_engine_edits(files, &self.file_watcher, &indexes);
        proof {
            lemma_changes_restated(paths, texts, files@, indexes@, changes);
            if changes is Ok && ranges_ordered(files@) {
                let v = changes->Ok_0;
                {
                    assert forall|i: int, j: int|
                        0 <= i < v@.len() && 0 <= j < v@[i].edits@.len() implies crate::changes::edit_in_order(
                        #[trigger] v@[i].edits@[j],
                    ) by {
                        let t = table(indexes@[i]);
                        assert(file_change_of(paths, t, files@[i]) == Ok::<
                            (Seq<char>, Seq<TextEdit>),
                            QueryError,
                        >((v@[i].file_path@, v@[i].edits@)));
                        assert(edits_in_lines(t, files@[i].edits@) == Ok::<Seq<TextEdit>, QueryError>(
                            v@[i].edits@,
                        ));
                        assert forall|k: int| 0 <= k < files@[i].edits@.len() implies (#[trigger] files@[i].edits@[k]).start
                            <= files@[i].edits@[k].end by {}
                        lemma_edits_in_order(t, files@[i].edits@);
                    }
                }
            }
        }
        changes
    }

    /// The edits that renaming the symbol at the cursor to `new_name` makes,
    /// file by file, each at the lines and columns of its offsets in the
    /// text that the engine holds; `Ok(None)` where the engine refuses the
    /// rename. Nothing is written.
    pub fn get_rename_info(&mut self, raw_cursor: &CursorCoordinates, new_name: &str, disk_text: Option<&str>) -> (renamed:
        Result<Option<RenameResult>, QueryError>)
        requires
            old(self).wf(),
        ensures
            final(self).wf(),
            flushes(*old(self), *final(self)),
            reports_setup(renamed, old(self).watcher(), *raw_cursor, disk_text),
            reports_bounds(renamed, *old(self), *final(self), *raw_cursor, disk_text),
            (renamed matches Err(e) && e is UnknownFile) ==> past_setup(
                *old(self),
                *final(self),
                *raw_cursor,
                disk_text,
            ) || setup_error(old(self).watcher(), *raw_cursor, disk_text) == Some(
                ErrorKind::UnknownFile,
            ),
            past_setup(*old(self), *final(self), *raw_cursor, disk_text) ==> (renamed matches Err(e)
                && e is EngineQueryFailed) || exists|edits: Option<Seq<FileEdits>>| #[trigger]
                rename_restated(
                    final(self).watcher().paths(),
                    host_texts(final(self).engine()),
                    edits,
                    renamed,
                ),
            renamed matches Ok(Some(result)) ==> forall|i: int|
                0 <= i < result.file_changes@.len() ==> final(self).watcher().knows(
                    (#[trigger] result.file_changes@[i]).file_path@,
                ),
            renamed matches Ok(Some(result)) ==> edits_ordered(result.file_changes@),
    {
        let query = match self.prepare(raw_cursor, disk_text) {
            Ok(query) => query,
            Err(e) => {
                return Err(e);
            },
        };
        let ghost paths = self.watcher().paths();
        let ghost texts = host_texts(self.engine());
        match engine_rename(&query.analysis, query.file, query.offset, new_name) {
            Err(detail) => Err(QueryError::EngineQueryFailed(detail)),
            Ok(None) => {
                proof {
                    assert(rename_restated(
                        paths,
                        texts,
                        None,
                        Ok::<Option<RenameResult>, QueryError>(None),
                    ));
                }
                Ok(None)
            },
            Ok(Some(change)) => {
                let files = source_change_edits(&change);
                match self.file_changes(&query.analysis, &files) {
                    Err(e) => {
                        proof {
                            assert(rename_restated(
                                paths,
                                texts,
                                Some(files@),
                                Err::<Option<RenameResult>, QueryError>(e),
                            ));
                        }
                        Err(e)
                    },
                    Ok(file_changes) => {
                        proof {
                            assert forall|i: int| 0 <= i < file_changes@.len() implies self.watcher().knows(
                                (#[trigger] file_changes@[i]).file_path@,
                            ) by {
                                assert(restates(paths, files@[i], file_changes@[i]));
                            }
                            assert forall|i: int, j: int|
                                0 <= i < j < file_changes@.len() implies (#[trigger] file_changes@[i]).file_path@
                                != (#[trigger] file_changes@[j]).file_path@ by {
                                assert(restates(paths, files@[i], file_changes@[i]));
                                assert(restates(paths, files@[j], file_changes@[j]));
                                assert(files@[i].file != files@[j].file);
                                self.watcher().lemma_paths_differ(
                                    files@[i].file.0 as int,
                                    files@[j].file.0 as int,
                                );
                            }
                            assert(rename_restated(
                                paths,
                                texts,
                                Some(files@),
                                Ok::<Option<RenameResult>, QueryError>(
                                    Some(RenameResult { file_changes }),
                                ),
                            ));
                        }
                        Ok(Some(RenameResult { file_changes }))
                    },
                }
            },
        }
    }

    /// What the engine shows of the type of the symbol at the cursor;
    /// `Ok(None)` where it shows nothing.
    pub fn get_type_hint(&mut self, raw_cursor: &CursorCoordinates, disk_text: Option<&str>) -> (hint:
        Result<Option<TypeHint>, QueryError>)
        requires
            old(self).wf(),
        ensures
            final(self).wf(),
            flushes(*old(self), *final(self)),
            reports_setup(hint, old(self).watcher(), *raw_cursor, disk_text),
            reports_bounds(hint, *old(self), *final(self), *raw_cursor, disk_text),
            reports_lookup(hint, *old(self), *final(self), *raw_cursor, disk_text),
            hint matches Ok(Some(h)) ==> h.file_path == raw_cursor.file_path && h.line
                == cursor_on_disk(*raw_cursor, disk_text).line && h.column == cursor_on_disk(
                *raw_cursor,
                disk_text,
            ).column,
            hint matches Ok(Some(h)) ==> exists|lists: Seq<Vec<String>>|
                h.canonical_types@ == #[trigger] concatenated(lists),
    {
        let query = match self.prepare(raw_cursor, disk_text) {
            Ok(query) => query,
            Err(e) => {
                return Err(e);
            },
        };
        match engine_hover(&query.analysis, query.file, query.offset) {
            Err(detail) => Err(QueryError::EngineQueryFailed(detail)),
            Ok(None) => Ok(None),
            Ok(Some(info)) => {
                let paths = action_paths(&info.actions);
                proof {
                    lemma_resolved_path(*raw_cursor, disk_text);
                }
                Ok(Some(type_hint_from(&query.cursor, info.markup, paths)))
            },
        }
    }
}

impl RustAnalyzerish {
    /// Makes a file ready for the engine: hands the queued changes to the
    /// engine, finds the file, and fetches its table of lines.
    fn setup_file_analysis(&mut self, file_path: &str) -> (query: Result<FileQuery, QueryError>)
        requires
            old(self).wf(),
        ensures
            final(self).wf(),
            flushes(*old(self), *final(self)),
            (query matches Err(e) && e is UnknownFile) <==> (stray_change(old(self).watcher())
                || !old(self).watcher().knows(file_path@)),
            query matches Err(e) ==> e is UnknownFile || e is EngineQueryFailed,
            query matches Ok(q) ==> q.file.0 < MAX_FILES && q.file.0
                < final(self).watcher().paths().len() && final(self).watcher().paths()[q.file.0 as int]
                == file_path@ && table(q.index).wf() && final(self).served_by(q.analysis) && holds(
                analysis_texts(q.analysis),
                q.file,
            ) && analysis_texts(q.analysis) == host_texts(final(self).engine()) && table(q.index)
                == table_of(encode_utf8(analysis_texts(q.analysis)[q.file.0 as int])) && q.file.0
                == position_of(final(self).watcher().paths(), file_path@),
    {
        match self.file_watcher.drain_and_apply_changes(&mut self.host) {
            Err(e) => {
                return Err(QueryError::UnknownFile);
            },
            Ok(()) => {},
        }
        let file = match self.file_watcher.get_file_id(file_path) {
            Ok(file) => file,
            Err(e) => {
                return Err(QueryError::UnknownFile);
            },
        };
        let analysis = host_analysis(&self.host);
        match analysis_line_index(&analysis, file) {
            Ok(index) => Ok(FileQuery { analysis, file, index }),
            Err(detail) => Err(QueryError::EngineQueryFailed(detail)),
        }
    }

    /// The completions that the engine offers at the cursor; `Ok(None)`
    /// where it offers none.
    pub fn get_completions(&mut self, raw_cursor: &CursorCoordinates, disk_text: Option<&str>) -> (found:
        Result<Option<Vec<CompletionItem>>, QueryError>)
        requires
            old(self).wf(),
        ensures
            final(self).wf(),
            flushes(*old(self), *final(self)),
            reports_setup(found, old(self).watcher(), *raw_cursor, disk_text),
            reports_bounds(found, *old(self), *final(self), *raw_cursor, disk_text),
            reports_lookup(found, *old(self), *final(self), *raw_cursor, disk_text),
            found is Ok ==> exists|raws: Option<Seq<RawCompletion>>| #[trigger]
                completions_answered(raws, found),
    {
        let query = match self.prepare(raw_cursor, disk_text) {
            Ok(query) => query,
            Err(e) => {
                return Err(e);
            },
        };
        let config = completion_config(insert_use_config());
        match engine_completions(&query.analysis, &config, query.file, query.offset) {
            Err(detail) => Err(QueryError::EngineQueryFailed(detail)),
            Ok(None) => {
                proof {
                    assert(completions_answered(
                        None,
                        Ok::<Option<Vec<CompletionItem>>, QueryError>(None),
                    ));
                }
                Ok(None)
            },
            Ok(Some(raw)) => {
                let ghost raws = raw@;
                let items = completions_from(raw);
                proof {
                    assert(completions_answered(
                        Some(raws),
                        Ok::<Option<Vec<CompletionItem>>, QueryError>(Some(items)),
                    ));
                }
                Ok(Some(items))
            },
        }
    }

    /// The definitions that the engine's answers for the places of a symbol
    /// amount to: `UnknownFile` where one of the places lies in a file
    /// without path; else one definition, in their order, for each place
    /// of which the engine gave the table of lines, in the module that the
    /// engine's name for the symbol tells and with the text of the whole
    /// item.
    pub fn definitions_of_answers(&self, answers: &Vec<DefinitionAnswer>) -> (found: Result<
        Option<Vec<DefinitionInfo>>,
        QueryError,
    >)
        requires
            self.wf(),
            answers_formed(answers@),
        ensures
            definitions_answered(self.watcher().paths(), answers@, found),
            found matches Ok(Some(v)) ==> forall|i: int|
                0 <= i < v@.len() ==> self.watcher().knows((#[trigger] v@[i]).file_path@),
            found matches Err(e) ==> e is UnknownFile,
            found matches Ok(v) ==> v is Some,
    {
        let ghost paths = self.watcher().paths();
        let count = self.file_watcher.file_count();
        let mut k: usize = 0;
        while k < answers.len()
            invariant
                k <= answers@.len(),
                count == paths.len(),
                paths == self.watcher().paths(),
                forall|j: int| 0 <= j < k ==> (#[trigger] answers@[j]).nav.file.0 < count,
            decreases answers.len() - k,
        {
            if answers[k].nav.file.0 as usize >= count {
                return Err(QueryError::UnknownFile);
            }
            k = k + 1;
        }
        let mut definitions: Vec<DefinitionInfo> = Vec::new();
        let mut i: usize = 0;
        proof {
            assert(answers@.take(0) =~= Seq::<DefinitionAnswer>::empty());
        }
        while i < answers.len()
            invariant
                i <= answers@.len(),
                self.wf(),
                answers_formed(answers@),
                paths == self.watcher().paths(),
                all_have_paths(paths, answers@),
                forall|j: int|
                    0 <= j < definitions@.len() ==> self.watcher().knows(
                        (#[trigger] definitions@[j]).file_path@,
                    ),
                definitions_listed(paths, answers@.take(i as int), definitions@),
            decreases answers.len() - i,
        {
            let ghost listed = definitions@;
            let answer = &answers[i];
            proof {
                assert(answers@.take(i + 1).drop_last() =~= answers@.take(i as int));
                assert(answers@.take(i + 1).last() == answers@[i as int]);
                assert(answers@[i as int].nav.file.0 < paths.len());
            }
            match (&answer.index, &answer.text, self.file_watcher.file_path(answer.nav.file)) {
                (Some(index), Some(text), Some(file_path)) => {
                    let module = module_name(&answer.moniker, &answer.nav.container);
                    let content = definition_content(text, answer.nav.full_start, answer.nav.full_end);
                    definitions.push(definition_from(index, &answer.nav, file_path, module, content));
                    proof {
                        assert(definitions@.drop_last() =~= listed);
                    }
                },
                _ => {},
            }
            i = i + 1;
        }
        proof {
            assert(answers@.take(i as int) =~= answers@);
        }
        Ok(Some(definitions))
    }

    /// The definitions of the symbol at the cursor of `query`, given how the
    /// engine's search for them ended: `Ok(None)` where the engine panicked
    /// or found no symbol; for the places that it found, what
    /// `definitions_of_answers` makes of the engine's answers for them. The
    /// engine is asked for the table of lines and the text of a file only
    /// where the file has a path, and for the name of a symbol only where
    /// its place has a position in the text.
    pub fn get_definition(query: &CursorQuery<'_>, outcome: GotoOutcome) -> (found: Result<
        Option<Vec<DefinitionInfo>>,
        QueryError,
    >)
        requires
            query.wf(),
        ensures
            outcome is Panicked ==> found matches Ok(None),
            outcome is NoResult ==> found matches Ok(None),
            outcome matches GotoOutcome::Failed(detail) ==> (found matches Err(
                QueryError::EngineQueryFailed(text),
            ) && text == detail),
            outcome matches GotoOutcome::Targets(places) ==> exists|answers: Seq<DefinitionAnswer>|
                answers.len() == places@.len() && #[trigger] definitions_answered(
                    query.session().watcher().paths(),
                    answers,
                    found,
                ) && definitions_given(analysis_texts(query.snapshot()), answers),
            found matches Ok(Some(v)) ==> forall|i: int|
                0 <= i < v@.len() ==> query.session().watcher().knows((#[trigger] v@[i]).file_path@),
    {
        let session = query.session;
        let prepared = &query.prepared;
        proof {
            assert(*session == query.session());
            assert(prepared.analysis == query.snapshot());
        }
        match outcome {
            GotoOutcome::Panicked => Ok(None),
            GotoOutcome::NoResult => Ok(None),
            GotoOutcome::Failed(detail) => Err(QueryError::EngineQueryFailed(detail)),
            GotoOutcome::Targets(places) => {
                let mut answers: Vec<DefinitionAnswer> = Vec::new();
                let mut i: usize = 0;
                while i < places.len()
                    invariant
                        i <= places@.len(),
                        session.wf(),
                        session.ready(*prepared),
                        *session == query.session(),
                        prepared.analysis == query.snapshot(),
                        outcome == GotoOutcome::Targets(places),
                        answers@.len() == i,
                        answers_formed(answers@),
                        definitions_given(analysis_texts(prepared.analysis), answers@),
                    decreases places.len() - i,
                {
                    let nav = nav_target(&places[i]);
                    let ghost before = answers@;
                    let index = match session.file_watcher.file_path(nav.file) {
                        None => None,
                        Some(_) => match analysis_line_index(&prepared.analysis, nav.file) {
                            Err(_) => None,
                            Ok(index) => Some(index),
                        },
                    };
                    let answer = match index {
                        None => DefinitionAnswer {
                            nav,
                            index: None,
                            moniker: RawMoniker::Unavailable,
                            text: None,
                        },
                        Some(index) => {
                            let moniker = if from_engine(&index, nav.focus_start).is_some() {
                                proof {
                                    let held = analysis_texts(prepared.analysis)[nav.file.0 as int];
                                    encode_utf8_valid_utf8(held);
                                    lemma_position_on_boundary(encode_utf8(held), nav.focus_start);
                                }
                                first_moniker(
                                    engine_monikers(&prepared.analysis, nav.file, nav.focus_start),
                                )
                            } else {
                                RawMoniker::Unavailable
                            };
                            let text = analysis_file_text(&prepared.analysis, nav.file);
                            DefinitionAnswer { nav, index: Some(index), moniker, text: Some(text) }
                        },
                    };
                    answers.push(answer);
                    proof {
                        assert(answers@.drop_last() =~= before);
                    }
                    i = i + 1;
                }
                session.definitions_of_answers(&answers)
            },
        }
    }

    /// The definitions that places amount to, for a summary: one for each
    /// place, in their order, whose file has a path and whose table of lines
    /// the engine gives. The module is the name of what contains the symbol,
    /// the content the text of the whole item.
    pub fn convert_nav_targets(&self, analysis: &Analysis, places: &Vec<NavigationTarget>) -> (found:
        Vec<DefinitionInfo>)
        requires
            self.wf(),
            self.served_by(*analysis),
        ensures
            found@.len() <= places@.len(),
            forall|i: int|
                0 <= i < found@.len() ==> self.watcher().knows((#[trigger] found@[i]).file_path@),
            exists|answers: Seq<PlaceAnswer>|
                answers.len() == places@.len() && #[trigger] definitions_from(
                    self.watcher().paths(),
                    answers,
                    found@,
                ) && places_given(analysis_texts(*analysis), answers),
    {
        let mut answers: Vec<PlaceAnswer> = Vec::new();
        let mut i: usize = 0;
        while i < places.len()
            invariant
                i <= places@.len(),
                self.wf(),
                self.served_by(*analysis),
                answers@.len() == i,
                places_given(analysis_texts(*analysis), answers@),
                forall|k: int|
                    0 <= k < answers@.len() ==> ((#[trigger] answers@[k]).index matches Some(ix)
                        ==> table(ix).wf()),
            decreases places.len() - i,
        {
            let nav = nav_target(&places[i]);
            let ghost before = answers@;
            let answer = match self.file_watcher.file_path(nav.file) {
                None => PlaceAnswer { nav, index: None, text: None },
                Some(_) => match analysis_line_index(analysis, nav.file) {
                    Err(_) => PlaceAnswer { nav, index: None, text: None },
                    Ok(index) => {
                        let text = analysis_file_text(analysis, nav.file);
                        PlaceAnswer { nav, index: Some(index), text: Some(text) }
                    },
                },
            };
            answers.push(answer);
            proof {
                assert(answers@.drop_last() =~= before);
            }
            i = i + 1;
        }
        self.summaries_of_answers(&answers)
    }

    /// The definitions that the engine's answers for places amount to, for
    /// a summary: one for each place, in their order, whose file has a path
    /// and of which the engine gave the table of lines. The module is the
    /// name of what contains the symbol, the content the text of the whole
    /// item.
    pub fn summaries_of_answers(&self, answers: &Vec<PlaceAnswer>) -> (found: Vec<DefinitionInfo>)
        requires
            self.wf(),
            forall|k: int|
                0 <= k < answers@.len() ==> ((#[trigger] answers@[k]).index matches Some(ix)
                    ==> table(ix).wf()),
        ensures
            found@.len() <= answers@.len(),
            forall|i: int|
                0 <= i < found@.len() ==> self.watcher().knows((#[trigger] found@[i]).file_path@),
            definitions_from(self.watcher().paths(), answers@, found@),
    {
        let ghost paths = self.watcher().paths();
        let mut definitions: Vec<DefinitionInfo> = Vec::new();
        let mut i: usize = 0;
        proof {
            assert(answers@.take(0) =~= Seq::<PlaceAnswer>::empty());
        }
        while i < answers.len()
            invariant
                i <= answers@.len(),
                definitions@.len() <= i,
                self.wf(),
                paths == self.watcher().paths(),
                forall|k: int|
                    0 <= k < answers@.len() ==> ((#[trigger] answers@[k]).index matches Some(ix)
                        ==> table(ix).wf()),
                forall|k: int|
                    0 <= k < definitions@.len() ==> self.watcher().knows(
                        (#[trigger] definitions@[k]).file_path@,
                    ),
                definitions_from(paths, answers@.take(i as int), definitions@),
            decreases answers.len() - i,
        {
            let ghost listed = definitions@;
            let answer = &answers[i];
            proof {
                assert(answers@.take(i + 1).drop_last() =~= answers@.take(i as int));
                assert(answers@.take(i + 1).last() == answers@[i as int]);
            }
            match (self.file_watcher.file_path(answer.nav.file), &answer.index) {
                (Some(file_path), Some(index)) => {
                    let content = match &answer.text {
                        Some(text) => plain_content(text, answer.nav.full_start, answer.nav.full_end),
                        None => String::new(),
                    };
                    let module = match &answer.nav.container {
                        Some(name) => name.clone(),
                        None => String::new(),
                    };
                    definitions.push(definition_from(index, &answer.nav, file_path, module, content));
                    proof {
                        assert(definitions@.drop_last() =~= listed);
                    }
                },
                _ => {},
            }
            i = i + 1;
        }
        proof {
            assert(answers@.take(i as int) =~= answers@);
        }
        definitions
    }

    /// The callers or callees that the engine's call items amount to, one
    /// for each item in their order: the function at the place of its name,
    /// under the path `"unknown"` where its file has none, and at line and
    /// column 0 where its file has no path or the engine does not give the
    /// table of lines of the file.
    pub fn call_infos(&self, analysis: &Analysis, items: &Vec<CallItem>) -> (found: Vec<CallerInfo>)
        requires
            self.wf(),
            self.served_by(*analysis),
        ensures
            found@.len() == items@.len(),
            exists|answers: Seq<CallAnswer>|
                answers.len() == items@.len() && #[trigger] calls_listed(
                    self.watcher().paths(),
                    answers,
                    found@,
                ) && calls_given(analysis_texts(*analysis), answers),
    {
        let mut answers: Vec<CallAnswer> = Vec::new();
        let mut i: usize = 0;
        while i < items.len()
            invariant
                i <= items@.len(),
                self.wf(),
                self.served_by(*analysis),
                answers@.len() == i,
                calls_given(analysis_texts(*analysis), answers@),
                forall|k: int|
                    0 <= k < answers@.len() ==> ((#[trigger] answers@[k]).index matches Some(ix)
                        ==> table(ix).wf()),
            decreases items.len() - i,
        {
            let target = call_item_target(&items[i]);
            let nav = nav_target(&target);
            let ghost before = answers@;
            let index = match self.file_watcher.file_path(nav.file) {
                None => None,
                Some(_) => match analysis_line_index(analysis, nav.file) {
                    Ok(index) => Some(index),
                    Err(_) => None,
                },
            };
            answers.push(CallAnswer { nav, index });
            proof {
                assert(answers@.drop_last() =~= before);
            }
            i = i + 1;
        }
        self.callers_of_answers(&answers)
    }

    /// The callers or callees that the engine's answers for call items
    /// amount to, one for each in their order: the function at the place of
    /// its name, under the path `"unknown"` where its file has none, and at
    /// line and column 0 where the engine gave no table of lines.
    pub fn callers_of_answers(&self, answers: &Vec<CallAnswer>) -> (found: Vec<CallerInfo>)
        requires
            self.wf(),
            forall|k: int|
                0 <= k < answers@.len() ==> ((#[trigger] answers@[k]).index matches Some(ix)
                    ==> table(ix).wf()),
        ensures
            calls_listed(self.watcher().paths(), answers@, found@),
    {
        let mut found: Vec<CallerInfo> = Vec::new();
        let mut i: usize = 0;
        while i < answers.len()
            invariant
                i <= answers@.len(),
                found@.len() == i,
                self.wf(),
                forall|k: int|
                    0 <= k < answers@.len() ==> ((#[trigger] answers@[k]).index matches Some(ix)
                        ==> table(ix).wf()),
                forall|k: int|
                    0 <= k < i ==> call_reports(
                        self.watcher().paths(),
                        answers@[k],
                        #[trigger] found@[k],
                    ),
            decreases answers.len() - i,
        {
            let answer = &answers[i];
            let file_path = self.file_watcher.file_path(answer.nav.file);
            let caller = match &answer.index {
                Some(index) => caller_from(&answer.nav, file_path, Some(index)),
                None => caller_from(&answer.nav, file_path, None),
            };
            found.push(caller);
            i = i + 1;
        }
        found
    }

    /// All that the engine knows of the symbol at the cursor of `query`,
    /// given how its search for the definitions ended: the hover text and
    /// the module paths of its actions; the definitions and implementations
    /// as `convert_nav_targets` lists them; callers and callees; and the
    /// number of uses that the engine's searches for references hold. What
    /// the engine cannot give is left empty, and the number is 0.
    pub fn analyze_symbol(query: &CursorQuery<'_>, definitions: GotoOutcome) -> (analysis: Result<
        SymbolAnalysis,
        QueryError,
    >)
        requires
            query.wf(),
        ensures
            analysis is Ok,
            !(definitions is Targets) ==> analysis->Ok_0.definitions@.len() == 0,
            forall|i: int|
                0 <= i < analysis->Ok_0.definitions@.len() ==> query.session().watcher().knows(
                    (#[trigger] analysis->Ok_0.definitions@[i]).file_path@,
                ),
            forall|i: int|
                0 <= i < analysis->Ok_0.implementations@.len() ==> query.session().watcher().knows(
                    (#[trigger] analysis->Ok_0.implementations@[i]).file_path@,
                ),
            analysis->Ok_0.type_info is None ==> analysis->Ok_0.canonical_types@.len() == 0,
            exists|lists: Seq<Vec<String>>|
                analysis->Ok_0.canonical_types@ == #[trigger] concatenated(lists),
            definitions is Targets ==> exists|answers: Seq<PlaceAnswer>|
                answers.len() == definitions->Targets_0@.len() && #[trigger] definitions_from(
                    query.session().watcher().paths(),
                    answers,
                    analysis->Ok_0.definitions@,
                ) && places_given(analysis_texts(query.snapshot()), answers),
            exists|answers: Seq<PlaceAnswer>| #[trigger]
                definitions_from(
                    query.session().watcher().paths(),
                    answers,
                    analysis->Ok_0.implementations@,
                ) && places_given(analysis_texts(query.snapshot()), answers),
            exists|answers: Seq<CallAnswer>| #[trigger]
                calls_listed(query.session().watcher().paths(), answers, analysis->Ok_0.callers@)
                    && calls_given(analysis_texts(query.snapshot()), answers),
            exists|answers: Seq<CallAnswer>| #[trigger]
                calls_listed(query.session().watcher().paths(), answers, analysis->Ok_0.callees@)
                    && calls_given(analysis_texts(query.snapshot()), answers),
            exists|results: Seq<ReferenceSearchResult>|
                analysis->Ok_0.reference_count == capped(0, #[trigger] uses_total(results)),
    {
        let session = query.session;
        let prepared = &query.prepared;
        proof {
            assert(*session == query.session());
            assert(prepared.analysis == query.snapshot());
        }
        let ghost paths = session.watcher().paths();
        let (type_info, canonical_types) = match engine_hover(
            &prepared.analysis,
            prepared.file,
            prepared.offset,
        ) {
            Ok(Some(info)) => {
                let paths = action_paths(&info.actions);
                let hint = type_hint_from(&prepared.cursor, info.markup, paths);
                (Some(hint.symbol), hint.canonical_types)
            },
            _ => (None, Vec::new()),
        };
        proof {
            if canonical_types@.len() == 0 {
                assert(canonical_types@ =~= concatenated(Seq::<Vec<String>>::empty()));
            }
        }
        let definitions = match definitions {
            GotoOutcome::Targets(places) => session.convert_nav_targets(&prepared.analysis, &places),
            _ => Vec::new(),
        };
        let implementations = match engine_goto_implementation(
            &prepared.analysis,
            prepared.file,
            prepared.offset,
        ) {
            Ok(Some(places)) => session.convert_nav_targets(&prepared.analysis, &places),
            _ => Vec::new(),
        };
        proof {
            if implementations@.len() == 0 {
                assert(definitions_from(paths, Seq::<PlaceAnswer>::empty(), implementations@));
            }
        }
        let callers = match engine_incoming_calls(&prepared.analysis, prepared.file, prepared.offset) {
            Ok(Some(items)) => session.call_infos(&prepared.analysis, &items),
            _ => Vec::new(),
        };
        proof {
            if callers@.len() == 0 {
                assert(calls_listed(paths, Seq::<CallAnswer>::empty(), callers@));
            }
        }
        let callees = match engine_outgoing_calls(&prepared.analysis, prepared.file, prepared.offset) {
            Ok(Some(items)) => session.call_infos(&prepared.analysis, &items),
            _ => Vec::new(),
        };
        proof {
            if callees@.len() == 0 {
                assert(calls_listed(paths, Seq::<CallAnswer>::empty(), callees@));
            }
        }
        let reference_count = match engine_find_all_refs(&prepared.analysis, prepared.file, prepared.offset) {
            Ok(Some(results)) => count_references(&results),
            _ => 0,
        };
        proof {
            if reference_count == 0 {
                assert(reference_count == capped(
                    0,
                    uses_total(Seq::<ReferenceSearchResult>::empty()),
                ));
            }
        }
        let ghost callers_seen = callers@;
        let ghost callees_seen = callees@;
        let symbol = SymbolAnalysis {
            type_info,
            canonical_types,
            definitions,
            implementations,
            callers,
            callees,
            reference_count,
        };
        proof {
            assert(symbol.callers@ == callers_seen);
            assert(symbol.callees@ == callees_seen);
        }
        Ok(symbol)
    }

    /// Appends to `found` the references that the engine's answers for one
    /// search amount to: the declaration first, where the engine knows it,
    /// its file has a path and the engine gave the table of lines of the
    /// file; then the uses file by file, in the order of the files, of each
    /// file that has a path and whose table of lines and text the engine
    /// gave. Each reference carries the line of source it stands on. The
    /// uses are named as the declaration is, or `"unknown"` where the engine
    /// knows none.
    pub fn references_from(
        &self,
        declared: &Option<PlaceAnswer>,
        files: &Vec<FileRanges>,
        answers: &Vec<FileAnswer>,
        found: &mut Vec<ReferenceInfo>,
    )
        requires
            self.wf(),
            answers@.len() == files@.len(),
            declared matches Some(place) ==> (place.index matches Some(ix) ==> table(ix).wf()),
            forall|k: int|
                0 <= k < answers@.len() ==> ((#[trigger] answers@[k]).index matches Some(ix)
                    ==> table(ix).wf()),
        ensures
            final(found)@.len() >= old(found)@.len(),
            references_answered(
                self.watcher().paths(),
                *declared,
                files@,
                answers@,
                old(found)@,
                final(found)@,
            ),
    {
        let ghost paths = self.watcher().paths();
        let ghost first = old(found)@.len() as int;
        let mut name = "unknown".to_owned();
        match declared {
            None => {},
            Some(place) => {
                name = place.nav.name.clone();
                match self.file_watcher.file_path(place.nav.file) {
                    None => {},
                    Some(file_path) => match &place.index {
                        None => {},
                        Some(index) => {
                            let content = match &place.text {
                                Some(Ok(text)) => line_of(index, text.as_str(), place.nav.focus_start),
                                _ => String::new(),
                            };
                            found.push(
                                reference_from(
                                    index,
                                    file_path,
                                    place.nav.focus_start,
                                    place.nav.focus_end,
                                    place.nav.name.clone(),
                                    content,
                                    true,
                                ),
                            );
                        },
                    },
                }
            },
        }
        let ghost uses = found@.len() as int;
        let ghost declared = *declared;
        let mut i: usize = 0;
        let ghost head = found@;
        proof {
            assert(files@.take(0) =~= Seq::<FileRanges>::empty());
            assert(head.take(first) =~= old(found)@);
            assert(found@.take(uses) =~= head);
            assert(found@.skip(uses) =~= Seq::<ReferenceInfo>::empty());
        }
        while i < files.len()
            invariant
                i <= files@.len(),
                self.wf(),
                paths == self.watcher().paths(),
                answers@.len() == files@.len(),
                forall|k: int|
                    0 <= k < answers@.len() ==> ((#[trigger] answers@[k]).index matches Some(ix)
                        ==> table(ix).wf()),
                first == old(found)@.len(),
                uses == head.len(),
                uses == (if declared is Some && place_listed(paths, declared->0) {
                    first + 1
                } else {
                    first
                }),
                head.take(first) == old(found)@,
                declared is Some && place_listed(paths, declared->0) ==> declares(
                    paths,
                    declared->0,
                    head[first],
                ),
                uses <= found@.len(),
                found@.take(uses) == head,
                name@ == symbol_name(declared),
                uses_listed(
                    paths,
                    files@.take(i as int),
                    answers@.take(i as int),
                    name@,
                    found@.skip(uses),
                ),
            decreases files.len() - i,
        {
            let ghost listed = found@;
            proof {
                assert(files@.take(i + 1).drop_last() =~= files@.take(i as int));
                assert(files@.take(i + 1).last() == files@[i as int]);
                assert(answers@.take(i + 1).drop_last() =~= answers@.take(i as int));
                assert(answers@.take(i + 1).last() == answers@[i as int]);
            }
            let file = files[i].file;
            let ghost answer = answers@[i as int];
            match self.file_watcher.file_path(file) {
                None => {},
                Some(file_path) => match &answers[i].index {
                    None => {},
                    Some(index) => {
                        match &answers[i].text {
                            Some(Ok(source)) => {
                                let mut j: usize = 0;
                                while j < files[i].ranges.len()
                                    invariant
                                        i < files@.len(),
                                        j <= files@[i as int].ranges@.len(),
                                        table(*index).wf(),
                                        answer.index == Some(*index),
                                        answer.text == Some(Ok::<String, String>(*source)),
                                        file_path@ == paths[files@[i as int].file.0 as int],
                                        found@.len() == listed.len() + j,
                                        found@.take(listed.len() as int) == listed,
                                        forall|k: int|
                                            listed.len() <= k < found@.len() ==> use_reports(
                                                paths,
                                                files@[i as int],
                                                answer,
                                                name@,
                                                k - listed.len(),
                                                #[trigger] found@[k],
                                            ),
                                    decreases files@[i as int].ranges@.len() - j,
                                {
                                    let ghost so_far = found@;
                                    let (start, end) = files[i].ranges[j];
                                    let content = line_of(index, source.as_str(), start);
                                    found.push(
                                        reference_from(
                                            index,
                                            file_path.clone(),
                                            start,
                                            end,
                                            name.clone(),
                                            content,
                                            false,
                                        ),
                                    );
                                    proof {
                                        assert(found@.take(listed.len() as int) =~= so_far.take(
                                            listed.len() as int,
                                        ));
                                        assert forall|k: int|
                                            listed.len() <= k < found@.len() implies use_reports(
                                            paths,
                                            files@[i as int],
                                            answer,
                                            name@,
                                            k - listed.len(),
                                            #[trigger] found@[k],
                                        ) by {
                                            if k < so_far.len() {
                                                assert(found@[k] == so_far[k]);
                                            }
                                        }
                                    }
                                    j = j + 1;
                                }
                                proof {
                                    let after = found@.skip(uses);
                                    let base = after.len() - files@[i as int].ranges@.len();
                                    assert(after.take(base) =~= listed.skip(uses));
                                    assert forall|k: int| base <= k < after.len() implies use_reports(
                                        paths,
                                        files@[i as int],
                                        answer,
                                        name@,
                                        k - base,
                                        #[trigger] after[k],
                                    ) by {
                                        assert(after[k] == found@[k + uses]);
                                    }
                                }
                            },
                            _ => {},
                        }
                    },
                },
            }
            proof {
                assert(found@.take(listed.len() as int) =~= listed);
                assert(found@.take(uses) =~= listed.take(uses));
            }
            i = i + 1;
        }
        proof {
            assert(files@.take(i as int) =~= files@);
            assert(answers@.take(i as int) =~= answers@);
            assert(found@.take(first) =~= head.take(first));
            if uses > first {
                assert(found@[first] == head[first]);
            }
            assert(references_answered(paths, declared, files@, answers@, old(found)@, found@));
        }
    }

    /// Appends the references of one search to `found`: what
    /// `references_from` makes of the engine's answers for the declaration
    /// and for each file of the uses. The engine is asked for the table of
    /// lines and the text of a file only where the file has a path.
    fn references_of(&self, analysis: &Analysis, result: &ReferenceSearchResult, found: &mut Vec<ReferenceInfo>)
        requires
            self.wf(),
            self.served_by(*analysis),
        ensures
            final(found)@.len() >= old(found)@.len(),
            exists|declared: Option<PlaceAnswer>, files: Seq<FileRanges>, answers: Seq<FileAnswer>|
                uses_of(files).to_multiset() == found_uses(*result) && #[trigger] references_answered(
                    self.watcher().paths(),
                    declared,
                    files,
                    answers,
                    old(found)@,
                    final(found)@,
                ) && search_given(analysis_texts(*analysis), declared, files, answers),
    {
        let declared = match reference_declaration(result) {
            None => None,
            Some(place) => {
                let nav = nav_target(&place);
                Some(
                    match self.file_watcher.file_path(nav.file) {
                        None => PlaceAnswer { nav, index: None, text: None },
                        Some(_) => match analysis_line_index(analysis, nav.file) {
                            Err(_) => PlaceAnswer { nav, index: None, text: None },
                            Ok(index) => {
                                let text = analysis_file_text(analysis, nav.file);
                                PlaceAnswer { nav, index: Some(index), text: Some(text) }
                            },
                        },
                    },
                )
            },
        };
        let files = reference_ranges(result);
        let mut answers: Vec<FileAnswer> = Vec::new();
        let mut i: usize = 0;
        while i < files.len()
            invariant
                i <= files@.len(),
                self.wf(),
                self.served_by(*analysis),
                answers@.len() == i,
                ranges_given(analysis_texts(*analysis), files@, answers@),
                forall|k: int|
                    0 <= k < answers@.len() ==> ((#[trigger] answers@[k]).index matches Some(ix)
                        ==> table(ix).wf()),
                forall|k: int| 0 <= k < files@.len() ==> (#[trigger] files@[k]).file.0 < MAX_FILES,
            decreases files.len() - i,
        {
            let file = files[i].file;
            let ghost before = answers@;
            let answer = match self.file_watcher.file_path(file) {
                None => FileAnswer { index: None, text: None },
                Some(_) => match analysis_line_index(analysis, file) {
                    Err(_) => FileAnswer { index: None, text: None },
                    Ok(index) => {
                        let text = analysis_file_text(analysis, file);
                        FileAnswer { index: Some(index), text: Some(text) }
                    },
                },
            };
            answers.push(answer);
            proof {
                assert(answers@.drop_last() =~= before);
            }
            i = i + 1;
        }
        self.references_from(&declared, &files, &answers, found);
        proof {
            assert(references_answered(
                self.watcher().paths(),
                declared,
                files@,
                answers@,
                old(found)@,
                found@,
            ));
            assert(search_given(analysis_texts(*analysis), declared, files@, answers@));
        }
    }

    /// The declaration and all uses of the symbol at the cursor, in listing
    /// order; `Ok(None)` where the engine finds no symbol, and
    /// `EngineQueryFailed` where it finds a symbol and no place of it.
    pub fn find_references(&mut self, raw_cursor: &CursorCoordinates, disk_text: Option<&str>) -> (found:
        Result<Option<Vec<ReferenceInfo>>, QueryError>)
        requires
            old(self).wf(),
        ensures
            final(self).wf(),
            flushes(*old(self), *final(self)),
            reports_setup(found, old(self).watcher(), *raw_cursor, disk_text),
            reports_bounds(found, *old(self), *final(self), *raw_cursor, disk_text),
            reports_lookup(found, *old(self), *final(self), *raw_cursor, disk_text),
            found matches Ok(Some(v)) ==> v@.len() > 0 && in_listing_order(v@),
            found matches Ok(Some(v)) ==> exists|searches: Seq<SearchAnswer>, listed: Seq<ReferenceInfo>|
                #[trigger] searches_answered(
                    final(self).watcher().paths(),
                    host_texts(final(self).engine()),
                    searches,
                    listed,
                ) && v@.to_multiset() == listed.to_multiset(),
    {
        let query = match self.prepare(raw_cursor, disk_text) {
            Ok(query) => query,
            Err(e) => {
                return Err(e);
            },
        };
        let results = match engine_find_all_refs(&query.analysis, query.file, query.offset) {
            Err(detail) => {
                return Err(QueryError::EngineQueryFailed(detail));
            },
            Ok(None) => {
                return Ok(None);
            },
            Ok(Some(results)) => results,
        };
        let ghost paths = self.watcher().paths();
        let ghost held = host_texts(self.engine());
        let ghost mut searches: Seq<SearchAnswer> = Seq::empty();
        let mut found: Vec<ReferenceInfo> = Vec::new();
        let mut i: usize = 0;
        while i < results.len()
            invariant
                i <= results@.len(),
                self.wf(),
                self.served_by(query.analysis),
                paths == self.watcher().paths(),
                held == analysis_texts(query.analysis),
                held == host_texts(self.engine()),
                searches.len() == i,
                searches_answered(paths, held, searches, found@),
            decreases results.len() - i,
        {
            let ghost before = found@;
            let ghost asked = searches;
            self.references_of(&query.analysis, &results[i], &mut found);
            proof {
                let (declared, files, answers) = choose|
                    declared: Option<PlaceAnswer>,
                    files: Seq<FileRanges>,
                    answers: Seq<FileAnswer>,
                |
                    uses_of(files).to_multiset() == found_uses(results@[i as int])
                        && #[trigger] references_answered(
                        paths,
                        declared,
                        files,
                        answers,
                        before,
                        found@,
                    ) && search_given(held, declared, files, answers);
                searches = asked.push(
                    SearchAnswer {
                        result: results@[i as int],
                        declared,
                        files,
                        answers,
                        listed: found@,
                    },
                );
                assert forall|k: int| 0 <= k < searches.len() implies #[trigger] search_answered_at(
                    paths,
                    held,
                    searches,
                    k,
                ) by {
                    if k < asked.len() {
                        assert(search_answered_at(paths, held, asked, k));
                        assert(searches[k] == asked[k]);
                        if k > 0 {
                            assert(searches[k - 1] == asked[k - 1]);
                        }
                    }
                }
            }
            i = i + 1;
        }
        if found.len() == 0 {
            return Err(QueryError::engine("No references or declarations found"));
        }
        let ghost unsorted = found@;
        let sorted = sort_references(found);
        proof {
            unsorted.to_multiset_ensures();
            sorted@.to_multiset_ensures();
            assert(searches_answered(paths, held, searches, unsorted));
        }
        Ok(Some(sorted))
    }

    /// The code actions that the engine offers at the cursor, without their
    /// edits; `Ok(None)` where it offers none.
    pub fn get_assists(&mut self, raw_cursor: &CursorCoordinates, disk_text: Option<&str>) -> (found:
        Result<Option<Vec<AssistInfo>>, QueryError>)
        requires
            old(self).wf(),
        ensures
            final(self).wf(),
            flushes(*old(self), *final(self)),
            reports_setup(found, old(self).watcher(), *raw_cursor, disk_text),
            reports_bounds(found, *old(self), *final(self), *raw_cursor, disk_text),
            reports_lookup(found, *old(self), *final(self), *raw_cursor, disk_text),
            found matches Ok(Some(v)) ==> v@.len() > 0 && forall|i: int|
                0 <= i < v@.len() ==> (#[trigger] v@[i]).source_change is None,
            past_setup(*old(self), *final(self), *raw_cursor, disk_text) ==> (found matches Err(e)
                && e is EngineQueryFailed) || exists|raws: Seq<RawAssist>| #[trigger]
                assists_answered(raws, found),
    {
        let query = match self.prepare(raw_cursor, disk_text) {
            Ok(query) => query,
            Err(e) => {
                return Err(e);
            },
        };
        let assists = engine_assists(&self.host, query.file, query.offset, false, insert_use_config());
        let mut raws: Vec<RawAssist> = Vec::new();
        let mut i: usize = 0;
        while i < assists.len()
            invariant
                i <= assists@.len(),
                raws@.len() == i,
            decreases assists.len() - i,
        {
            raws.push(assist_fields(&assists[i]));
            i = i + 1;
        }
        let found = assists_from(&raws);
        proof {
            assert(assists_answered(raws@, Ok::<Option<Vec<AssistInfo>>, QueryError>(found)));
        }
        Ok(found)
    }

    /// What applying the code action `assist_id` comes to, given the actions
    /// that the engine offers, with their edits: `Ok(None)` where none has
    /// this identifier; for the first that has it `EngineQueryFailed` where
    /// it has no edits, else its edits as changes to files.
    pub fn assist_outcome(&self, analysis: &Analysis, actions: &Vec<ResolvedAssist>, assist_id: &str) -> (change:
        Result<Option<AssistSourceChange>, QueryError>)
        requires
            self.wf(),
            self.served_by(*analysis),
        ensures
            assist_chosen(
                self.watcher().paths(),
                analysis_texts(*analysis),
                actions@,
                assist_id@,
                change,
            ),
            change matches Err(e) ==> e is UnknownFile || e is EngineQueryFailed || e
                is OutOfBounds,
            change matches Ok(Some(c)) ==> forall|i: int|
                0 <= i < c.file_changes@.len() ==> self.watcher().knows(
                    (#[trigger] c.file_changes@[i]).file_path@,
                ),
            change matches Ok(Some(c)) ==> !actions_ordered(actions@) || edits_ordered(
                c.file_changes@,
            ),
    {
        let wanted = assist_id.to_owned();
        let mut i: usize = 0;
        proof {
            assert(actions@.take(0) =~= Seq::<ResolvedAssist>::empty());
        }
        while i < actions.len()
            invariant
                i <= actions@.len(),
                self.wf(),
                self.served_by(*analysis),
                wanted@ == assist_id@,
                no_such_action(actions@.take(i as int), assist_id@),
            decreases actions.len() - i,
        {
            if actions[i].id == wanted {
                proof {
                    assert forall|k: int| #[trigger]
                        first_such_action(actions@, assist_id@, k) implies k == i by {
                        if k < i {
                            assert(actions@.take(i as int)[k].id@ != assist_id@);
                        } else if k > i {
                            assert(actions@.take(k)[i as int].id@ != assist_id@);
                        }
                    }
                    assert(!no_such_action(actions@, assist_id@));
                }
                let files = match &actions[i].files {
                    Some(files) => files,
                    None => {
                        return Err(QueryError::engine("Assist has no source change available"));
                    },
                };
                let file_changes = match self.file_changes(analysis, files) {
                    Ok(file_changes) => file_changes,
                    Err(e) => {
                        return Err(e);
                    },
                };
                proof {
                    assert forall|k: int| 0 <= k < file_changes@.len() implies self.watcher().knows(
                        (#[trigger] file_changes@[k]).file_path@,
                    ) by {
                        assert(restates(self.watcher().paths(), files@[k], file_changes@[k]));
                    }
                }
                return Ok(Some(AssistSourceChange { file_changes, is_snippet: actions[i].is_snippet }));
            }
            proof {
                assert forall|j: int| 0 <= j < i + 1 implies (#[trigger] actions@.take(
                    i + 1,
                )[j]).id@ != assist_id@ by {
                    if j < i {
                        assert(actions@.take(i as int)[j].id@ != assist_id@);
                    }
                }
            }
            i = i + 1;
        }
        proof {
            assert(actions@.take(i as int) =~= actions@);
        }
        Ok(None)
    }

    /// The edits of the code action `assist_id` at the cursor, at the lines
    /// and columns of their offsets in the text that the engine holds:
    /// what `assist_outcome` makes of the actions that the engine offers
    /// there. Nothing is written.
    pub fn apply_assist(&mut self, raw_cursor: &CursorCoordinates, assist_id: &str, disk_text: Option<&str>) -> (change:
        Result<Option<AssistSourceChange>, QueryError>)
        requires
            old(self).wf(),
        ensures
            final(self).wf(),
            flushes(*old(self), *final(self)),
            reports_setup(change, old(self).watcher(), *raw_cursor, disk_text),
            reports_bounds(change, *old(self), *final(self), *raw_cursor, disk_text),
            past_setup(*old(self), *final(self), *raw_cursor, disk_text) ==> (change matches Err(e)
                && e is EngineQueryFailed) || exists|actions: Seq<ResolvedAssist>| #[trigger]
                assist_chosen(
                    final(self).watcher().paths(),
                    host_texts(final(self).engine()),
                    actions,
                    assist_id@,
                    change,
                ),
            change matches Ok(Some(c)) ==> forall|i: int|
                0 <= i < c.file_changes@.len() ==> final(self).watcher().knows(
                    (#[trigger] c.file_changes@[i]).file_path@,
                ),
            change matches Ok(Some(c)) ==> edits_ordered(c.file_changes@),
    {
        let query = match self.prepare(raw_cursor, disk_text) {
            Ok(query) => query,
            Err(e) => {
                return Err(e);
            },
        };
        let assists = engine_assists(&self.host, query.file, query.offset, true, insert_use_config());
        let mut actions: Vec<ResolvedAssist> = Vec::new();
        let mut i: usize = 0;
        while i < assists.len()
            invariant
                i <= assists@.len(),
                actions_ordered(actions@),
            decreases assists.len() - i,
        {
            let raw = assist_fields(&assists[i]);
            let action = match &raw.source_change {
                Some(source_change) => ResolvedAssist {
                    id: raw.id,
                    files: Some(source_change_edits(source_change)),
                    is_snippet: source_change_is_snippet(source_change),
                },
                None => ResolvedAssist { id: raw.id, files: None, is_snippet: false },
            };
            actions.push(action);
            i = i + 1;
        }
        let change = self.assist_outcome(&query.analysis, &actions, assist_id);
        proof {
            assert(assist_chosen(
                self.watcher().paths(),
                host_texts(self.engine()),
                actions@,
                assist_id@,
                change,
            ));
        }
        change
    }

    /// The fixes that come with a diagnostic: one for each code action that
    /// has edits, in their order, with the label of the action and its edits
    /// as changes to files. The first action whose edits cannot be restated
    /// ends the work with its error, which is `UnknownFile` exactly where
    /// one of its files has no path.
    fn fixes_of(&self, analysis: &Analysis, assists: &Vec<Assist>) -> (fixes: Result<
        Vec<DiagnosticFix>,
        QueryError,
    >)
        requires
            self.wf(),
            self.served_by(*analysis),
        ensures
            fixes matches Ok(v) ==> v@.len() <= assists@.len(),
            fixes matches Err(e) ==> e is UnknownFile || e is EngineQueryFailed || e is OutOfBounds,
            assists@.len() == 0 ==> fixes is Ok,
            exists|answers: Seq<FixAnswer>|
                answers.len() <= assists@.len() && (fixes is Ok ==> answers.len()
                    == assists@.len()) && #[trigger] fixes_answered(
                    self.watcher().paths(),
                    analysis_texts(*analysis),
                    answers,
                    fixes,
                ),
    {
        let mut given: Vec<Option<DiagnosticFix>> = Vec::new();
        let ghost mut answers: Seq<FixAnswer> = Seq::empty();
        let mut i: usize = 0;
        while i < assists.len()
            invariant
                i <= assists@.len(),
                given@.len() == i,
                kept(given@).len() <= i,
                self.wf(),
                self.served_by(*analysis),
                answers.len() == i,
                fixes_listed(
                    self.watcher().paths(),
                    analysis_texts(*analysis),
                    answers,
                    kept(given@),
                ),
            decreases assists.len() - i,
        {
            let raw = assist_fields(&assists[i]);
            let ghost before = answers;
            let ghost gathered = given@;
            match raw.source_change {
                None => {
                    proof {
                        answers = before.push(FixAnswer { label: raw.label, files: None });
                    }
                    given.push(None);
                },
                Some(source_change) => {
                    let files = source_change_edits(&source_change);
                    proof {
                        answers = before.push(FixAnswer { label: raw.label, files: Some(files) });
                    }
                    match self.file_changes(analysis, &files) {
                        Err(e) => {
                            proof {
                                assert(fixes_answered(
                                    self.watcher().paths(),
                                    analysis_texts(*analysis),
                                    answers,
                                    Err::<Vec<DiagnosticFix>, QueryError>(e),
                                ));
                            }
                            return Err(e);
                        },
                        Ok(file_changes) => {
                            given.push(Some(DiagnosticFix { label: raw.label, file_changes }));
                            proof {
                                assert(given@.drop_last() =~= gathered);
                                assert(kept(given@) =~= kept(gathered).push(given@.last()->0));
                                assert(kept(given@).drop_last() =~= kept(gathered));
                            }
                        },
                    }
                },
            }
            proof {
                assert(answers.drop_last() =~= before);
                assert(given@.drop_last() =~= gathered);
            }
            i = i + 1;
        }
        let fixes = present(given);
        proof {
            assert(fixes_answered(
                self.watcher().paths(),
                analysis_texts(*analysis),
                answers,
                Ok::<Vec<DiagnosticFix>, QueryError>(fixes),
            ));
        }
        Ok(fixes)
    }

    /// The diagnostics of a file, one for each that the engine gives and in
    /// its order, each with the engine's message, severity and code, at the
    /// lines and columns of its range in the text that the engine holds, and
    /// with its fixes as `fixes_of` lists them. A position that the text
    /// does not have is given as line and column 0. The first fix that
    /// cannot be restated ends the work with its error.
    pub fn get_diagnostics(&mut self, file_path: &str) -> (found: Result<
        Vec<DiagnosticInfo>,
        QueryError,
    >)
        requires
            old(self).wf(),
        ensures
            final(self).wf(),
            flushes(*old(self), *final(self)),
            (stray_change(old(self).watcher()) || !old(self).watcher().knows(file_path@)) ==> (
            found matches Err(e) && e is UnknownFile),
            found matches Err(e) ==> e is UnknownFile || e is EngineQueryFailed || e is OutOfBounds,
            found matches Ok(v) ==> forall|i: int|
                0 <= i < v@.len() ==> (#[trigger] v@[i]).file_path@ == file_path@,
            found is Ok ==> exists|answers: Seq<DiagnosticAnswer>| #[trigger]
                diagnostics_answered(
                    final(self).watcher().paths(),
                    host_texts(final(self).engine()),
                    engine_table(
                        host_texts(final(self).engine()),
                        FileHandle(position_of(final(self).watcher().paths(), file_path@) as u32),
                    ),
                    file_path@,
                    answers,
                    found,
                ),
    {
        let query = match self.setup_file_analysis(file_path) {
            Ok(query) => query,
            Err(e) => {
                return Err(e);
            },
        };
        let diagnostics = match engine_diagnostics(&query.analysis, query.file, insert_use_config()) {
            Ok(diagnostics) => diagnostics,
            Err(detail) => {
                return Err(QueryError::EngineQueryFailed(detail));
            },
        };
        let ghost paths = self.watcher().paths();
        let ghost texts = host_texts(self.engine());
        let ghost t = table(query.index);
        let ghost mut answers: Seq<DiagnosticAnswer> = Seq::empty();
        let mut given: Vec<DiagnosticGiven> = Vec::new();
        let mut i: usize = 0;
        while i < diagnostics.len()
            invariant
                i <= diagnostics@.len(),
                self.wf(),
                self.served_by(query.analysis),
                flushes(*old(self), *self),
                self.watcher().paths() == old(self).watcher().paths(),
                paths == self.watcher().paths(),
                t == table(query.index),
                table(query.index).wf(),
                !stray_change(old(self).watcher()),
                old(self).watcher().knows(file_path@),
                texts == analysis_texts(query.analysis),
                texts == host_texts(self.engine()),
                given@.len() == i,
                answers.len() == i,
                forall|k: int|
                    0 <= k < i ==> (#[trigger] given@[k]).message == answers[k].message
                        && given@[k].severity == answers[k].severity && given@[k].code
                        == answers[k].code && given@[k].start == answers[k].start && given@[k].end
                        == answers[k].end && fixes_listed(
                        paths,
                        texts,
                        answers[k].fixes,
                        given@[k].fixes@,
                    ),
            decreases diagnostics.len() - i,
        {
            let raw = diagnostic_fields(&diagnostics[i]);
            let outcome = self.fixes_of(&query.analysis, &raw.fixes);
            let ghost fix_answers = choose|fix_answers: Seq<FixAnswer>| #[trigger]
                fixes_answered(paths, texts, fix_answers, outcome);
            let fixes = match outcome {
                Ok(fixes) => fixes,
                Err(e) => {
                    return Err(e);
                },
            };
            proof {
                answers = answers.push(
                    DiagnosticAnswer {
                        message: raw.message,
                        severity: raw.severity,
                        code: raw.code,
                        start: raw.start,
                        end: raw.end,
                        fixes: fix_answers,
                    },
                );
            }
            given.push(
                DiagnosticGiven {
                    message: raw.message,
                    severity: raw.severity,
                    code: raw.code,
                    start: raw.start,
                    end: raw.end,
                    fixes,
                },
            );
            i = i + 1;
        }
        let ghost gathered = given@;
        let found = diagnostics_from(&query.index, file_path, given);
        proof {
            let file = FileHandle(position_of(self.watcher().paths(), file_path@) as u32);
            assert(file == query.file);
            assert(t == engine_table(host_texts(self.engine()), file));
            assert forall|k: int| 0 <= k < found@.len() implies diagnostic_reports(
                paths,
                texts,
                t,
                file_path@,
                answers[k],
                #[trigger] found@[k],
            ) by {
                assert(diagnostic_of(t, file_path@, gathered[k], found@[k]));
            }
            assert(diagnostics_answered(
                self.watcher().paths(),
                host_texts(self.engine()),
                engine_table(host_texts(self.engine()), file),
                file_path@,
                answers,
                Ok::<Vec<DiagnosticInfo>, QueryError>(found),
            ));
        }
        Ok(found)
    }

    /// The outline of a file: its items in the engine's order.
    pub fn get_file_outline(&mut self, file_path: &str) -> (outline: Result<
        Vec<FileOutlineItem>,
        QueryError,
    >)
        requires
            old(self).wf(),
        ensures
            final(self).wf(),
            flushes(*old(self), *final(self)),
            (stray_change(old(self).watcher()) || !old(self).watcher().knows(file_path@)) ==> (
            outline matches Err(e) && e is UnknownFile),
            (outline matches Err(e) && e is UnknownFile) ==> (stray_change(old(self).watcher())
                || !old(self).watcher().knows(file_path@)),
            outline matches Err(e) ==> e is UnknownFile || e is EngineQueryFailed,
            outline is Ok ==> exists|nodes: Seq<RawNode>| #[trigger]
                outline_answered(
                    engine_table(
                        host_texts(final(self).engine()),
                        FileHandle(position_of(final(self).watcher().paths(), file_path@) as u32),
                    ),
                    nodes,
                    outline,
                ),
    {
        let query = match self.setup_file_analysis(file_path) {
            Ok(query) => query,
            Err(e) => {
                return Err(e);
            },
        };
        let nodes = match engine_file_structure(&query.analysis, query.file) {
            Ok(nodes) => nodes,
            Err(detail) => {
                return Err(QueryError::EngineQueryFailed(detail));
            },
        };
        let ghost t = table(query.index);
        let mut gathered: Vec<RawNode> = Vec::new();
        let mut i: usize = 0;
        while i < nodes.len()
            invariant
                i <= nodes@.len(),
                gathered@.len() == i,
            decreases nodes.len() - i,
        {
            gathered.push(structure_node_fields(&nodes[i]));
            i = i + 1;
        }
        let ghost raws = gathered@;
        let outline = outline_from(&query.index, gathered);
        proof {
            let file = FileHandle(position_of(self.watcher().paths(), file_path@) as u32);
            assert(file == query.file);
            assert(outline_answered(
                engine_table(host_texts(self.engine()), file),
                raws,
                Ok::<Vec<FileOutlineItem>, QueryError>(outline),
            ));
        }
        Ok(outline)
    }

    /// At most `limit` symbols of the workspace whose names match `query`.
    /// A symbol in a file without path, or whose table of lines the engine
    /// cannot give, is left out.
    pub fn search_symbols(&mut self, query: &str, limit: usize) -> (found: Result<
        Vec<SymbolSearchResult>,
        QueryError,
    >)
        requires
            old(self).wf(),
        ensures
            final(self).wf(),
            flushes(*old(self), *final(self)),
            stray_change(old(self).watcher()) <==> (found matches Err(e) && e is UnknownFile),
            found matches Err(e) ==> e is UnknownFile || e is EngineQueryFailed,
            found matches Ok(v) ==> forall|i: int|
                0 <= i < v@.len() ==> final(self).watcher().knows((#[trigger] v@[i]).file_path@),
            found is Ok ==> exists|answers: Seq<HitAnswer>| #[trigger]
                hits_answered(final(self).watcher().paths(), answers, found) && hits_given(
                    host_texts(final(self).engine()),
                    answers,
                ),
    {
        match self.file_watcher.drain_and_apply_changes(&mut self.host) {
            Err(e) => {
                return Err(QueryError::UnknownFile);
            },
            Ok(()) => {},
        }
        let analysis = host_analysis(&self.host);
        let places = match engine_symbol_search(&analysis, query, limit) {
            Ok(places) => places,
            Err(detail) => {
                return Err(QueryError::EngineQueryFailed(detail));
            },
        };
        let ghost paths = self.watcher().paths();
        let mut answers: Vec<HitAnswer> = Vec::new();
        let mut i: usize = 0;
        while i < places.len()
            invariant
                i <= places@.len(),
                self.wf(),
                self.served_by(analysis),
                flushes(*old(self), *self),
                !stray_change(old(self).watcher()),
                self.watcher().paths() == old(self).watcher().paths(),
                paths == self.watcher().paths(),
                self.watcher().pending().len() == 0,
                analysis_texts(analysis) == host_texts(self.engine()),
                answers@.len() == i,
                hits_given(analysis_texts(analysis), answers@),
                forall|k: int|
                    0 <= k < answers@.len() ==> ((#[trigger] answers@[k]).index matches Some(ix)
                        ==> table(ix).wf()),
            decreases places.len() - i,
        {
            let nav = nav_target(&places[i]);
            let ghost before = answers@;
            let answer = match self.file_watcher.file_path(nav.file) {
                None => HitAnswer { nav, kind: None, index: None },
                Some(_) => match analysis_line_index(&analysis, nav.file) {
                    Err(_) => HitAnswer { nav, kind: None, index: None },
                    Ok(index) => {
                        let kind = match nav.kind {
                            Some(kind) => Some(symbol_kind_name(kind)),
                            None => None,
                        };
                        HitAnswer { nav, kind, index: Some(index) }
                    },
                },
            };
            answers.push(answer);
            proof {
                assert(answers@.drop_last() =~= before);
            }
            i = i + 1;
        }
        let found = self.hits_of_answers(&answers);
        proof {
            assert(hits_answered(paths, answers@, Ok::<Vec<SymbolSearchResult>, QueryError>(found)));
        }
        Ok(found)
    }

    /// The hits that the engine's answers for the symbols of a search amount
    /// to: one for each symbol, in their order, whose file has a path and of
    /// which the engine gave the table of lines.
    pub fn hits_of_answers(&self, answers: &Vec<HitAnswer>) -> (found: Vec<SymbolSearchResult>)
        requires
            self.wf(),
            forall|k: int|
                0 <= k < answers@.len() ==> ((#[trigger] answers@[k]).index matches Some(ix)
                    ==> table(ix).wf()),
        ensures
            found@.len() <= answers@.len(),
            forall|i: int|
                0 <= i < found@.len() ==> self.watcher().knows((#[trigger] found@[i]).file_path@),
            hits_listed(self.watcher().paths(), answers@, found@),
    {
        let ghost paths = self.watcher().paths();
        let mut found: Vec<SymbolSearchResult> = Vec::new();
        let mut i: usize = 0;
        proof {
            assert(answers@.take(0) =~= Seq::<HitAnswer>::empty());
        }
        while i < answers.len()
            invariant
                i <= answers@.len(),
                found@.len() <= i,
                self.wf(),
                paths == self.watcher().paths(),
                forall|k: int|
                    0 <= k < answers@.len() ==> ((#[trigger] answers@[k]).index matches Some(ix)
                        ==> table(ix).wf()),
                forall|k: int|
                    0 <= k < found@.len() ==> self.watcher().knows((#[trigger] found@[k]).file_path@),
                hits_listed(paths, answers@.take(i as int), found@),
            decreases answers.len() - i,
        {
            let ghost listed = found@;
            let answer = &answers[i];
            proof {
                assert(answers@.take(i + 1).drop_last() =~= answers@.take(i as int));
                assert(answers@.take(i + 1).last() == answers@[i as int]);
            }
            match (self.file_watcher.file_path(answer.nav.file), &answer.index) {
                (Some(file_path), Some(index)) => {
                    let kind = copy_text(&answer.kind);
                    found.push(search_result_from(index, &answer.nav, file_path, kind));
                    proof {
                        assert(found@.drop_last() =~= listed);
                    }
                },
                _ => {},
            }
            i = i + 1;
        }
        proof {
            assert(answers@.take(i as int) =~= answers@);
        }
        found
    }

    /// The text of a file, as the engine holds it, with the types and
    /// parameter names that the engine infers written into it by the
    /// engine's own text edit; with `start_line` and `end_line` the lines
    /// from the one to the other of that text only. `OutOfBounds` where the
    /// text has no such lines or a hint does not fit the text.
    pub fn view_inlay_hints(&mut self, file_path: &str, start_line: Option<u32>, end_line: Option<u32>) -> (text:
        Result<String, QueryError>)
        requires
            old(self).wf(),
        ensures
            final(self).wf(),
            flushes(*old(self), *final(self)),
            (stray_change(old(self).watcher()) || !old(self).watcher().knows(file_path@)) ==> (
            text matches Err(e) && e is UnknownFile),
            (text matches Err(e) && e is UnknownFile) ==> (stray_change(old(self).watcher())
                || !old(self).watcher().knows(file_path@)),
            text matches Err(e) ==> e is UnknownFile || e is EngineQueryFailed || e is OutOfBounds,
            (text is Ok || (text matches Err(e) && e is OutOfBounds)) ==> exists|hints: Seq<RawHint>|
                #[trigger] hints_shown(
                    host_texts(final(self).engine())[position_of(
                        final(self).watcher().paths(),
                        file_path@,
                    )],
                    hints,
                    start_line,
                    end_line,
                    text,
                ),
    {
        let query = match self.setup_file_analysis(file_path) {
            Ok(query) => query,
            Err(e) => {
                return Err(e);
            },
        };
        let content = match analysis_file_text(&query.analysis, query.file) {
            Ok(content) => content,
            Err(detail) => {
                return Err(QueryError::EngineQueryFailed(detail));
            },
        };
        let config = inlay_hints_config();
        let hints = match engine_inlay_hints(&query.analysis, &config, query.file) {
            Ok(hints) => hints,
            Err(detail) => {
                return Err(QueryError::EngineQueryFailed(detail));
            },
        };
        let mut shown: Vec<RawHint> = Vec::new();
        let mut i: usize = 0;
        while i < hints.len()
            invariant
                i <= hints@.len(),
                shown@.len() == i,
            decreases hints.len() - i,
        {
            shown.push(inlay_hint_fields(&hints[i]));
            i = i + 1;
        }
        let list = match hint_insertions(content.as_str(), &shown) {
            Ok(list) => list,
            Err(e) => {
                proof {
                    assert(hints_shown(
                        content@,
                        shown@,
                        start_line,
                        end_line,
                        Err::<String, QueryError>(QueryError::OutOfBounds),
                    ));
                }
                return Err(QueryError::OutOfBounds);
            },
        };
        let ghost all = plain_insertions(shown@);
        let mut builder = builder_new();
        let mut k: usize = 0;
        proof {
            assert(shown@.take(0) =~= Seq::<RawHint>::empty());
            assert(all.take(0) =~= Seq::<(int, Seq<char>)>::empty());
        }
        while k < list.len()
            invariant
                k <= list@.len(),
                list@.len() == shown@.len(),
                all == plain_insertions(shown@),
                insertions_fit(content@, all),
                forall|j: int|
                    0 <= j < list@.len() ==> ((#[trigger] list@[j]).0 as int, list@[j].1@)
                        == insertion_of(shown@[j]),
                builder_insertions(builder) == sorted_insertions(shown@.take(k as int)),
                forall|j: int|
                    0 <= j < builder_insertions(builder).len() ==> fits(
                        content@,
                        #[trigger] builder_insertions(builder)[j],
                    ),
                inserted_len(builder_insertions(builder)) == inserted_len(all.take(k as int)),
            decreases list.len() - k,
        {
            let ghost before = builder_insertions(builder);
            let offset = list[k].0;
            let text = list[k].1.clone();
            proof {
                assert(all[k as int] == insertion_of(shown@[k as int]));
                assert(fits(content@, all[k as int]));
                assert(shown@.take(k + 1).drop_last() =~= shown@.take(k as int));
                assert(all.take(k + 1).drop_last() =~= all.take(k as int));
                lemma_placed_behind(content@, before, insertion_of(shown@[k as int]));
            }
            builder_insert(&mut builder, offset, text);
            k = k + 1;
        }
        proof {
            assert(shown@.take(k as int) =~= shown@);
            assert(all.take(k as int) =~= all);
        }
        let annotated = builder_apply(builder, content);
        let found = match (start_line, end_line) {
            (Some(start), Some(end)) => match select_lines(annotated.as_str(), start, end) {
                Some(part) => Ok(part),
                None => Err(QueryError::OutOfBounds),
            },
            _ => Ok(annotated),
        };
        proof {
            assert(hints_shown(content@, shown@, start_line, end_line, found));
        }
        found
    }

    /// The expansion of the macro call at the cursor; `Ok(None)` where there
    /// is none.
    pub fn expand_macro(&mut self, raw_cursor: &CursorCoordinates, disk_text: Option<&str>) -> (expansion:
        Result<Option<MacroExpansion>, QueryError>)
        requires
            old(self).wf(),
        ensures
            final(self).wf(),
            flushes(*old(self), *final(self)),
            reports_setup(expansion, old(self).watcher(), *raw_cursor, disk_text),
            reports_bounds(expansion, *old(self), *final(self), *raw_cursor, disk_text),
            reports_lookup(expansion, *old(self), *final(self), *raw_cursor, disk_text),
    {
        let query = match self.prepare(raw_cursor, disk_text) {
            Ok(query) => query,
            Err(e) => {
                return Err(e);
            },
        };
        match engine_expand_macro(&query.analysis, query.file, query.offset) {
            Ok(expansion) => Ok(expansion),
            Err(detail) => Err(QueryError::EngineQueryFailed(detail)),
        }
    }

    /// The signature of the function called at the cursor; `Ok(None)` where
    /// the cursor is in no call.
    pub fn get_signature_help(&mut self, raw_cursor: &CursorCoordinates, disk_text: Option<&str>) -> (help:
        Result<Option<SignatureInfo>, QueryError>)
        requires
            old(self).wf(),
        ensures
            final(self).wf(),
            flushes(*old(self), *final(self)),
            reports_setup(help, old(self).watcher(), *raw_cursor, disk_text),
            reports_bounds(help, *old(self), *final(self), *raw_cursor, disk_text),
            reports_lookup(help, *old(self), *final(self), *raw_cursor, disk_text),
    {
        let query = match self.prepare(raw_cursor, disk_text) {
            Ok(query) => query,
            Err(e) => {
                return Err(e);
            },
        };
        match engine_signature_help(&query.analysis, query.file, query.offset) {
            Ok(help) => Ok(help),
            Err(detail) => Err(QueryError::EngineQueryFailed(detail)),
        }
    }

    /// A search of the workspace that resolves names as at the start of
    /// `context_file`, or of the first file where none is given.
    fn finder_for<'a>(&'a self, context_file: Option<&str>) -> (finder: Result<
        MatchFinder<'a>,
        QueryError,
    >)
        requires
            self.wf(),
        ensures
            (context_file matches Some(path) && !self.watcher().knows(path@)) <==> (
            finder matches Err(e) && e is UnknownFile),
            finder matches Err(e) ==> e is UnknownFile || e is EngineQueryFailed,
    {
        let made = match context_file {
            Some(path) => {
                let file = match self.file_watcher.get_file_id(path) {
                    Ok(file) => file,
                    Err(e) => {
                        return Err(QueryError::UnknownFile);
                    },
                };
                finder_in_context(&self.host, file)
            },
            None => finder_at_first_file(&self.host),
        };
        match made {
            Ok(finder) => Ok(finder),
            Err(detail) => Err(QueryError::EngineQueryFailed(detail)),
        }
    }

    /// The matches that the edits of a structural search stand for: for
    /// each file, in their order, that has a path and whose table of lines
    /// the engine gives, one match for each edit, at the place of the edit
    /// and with the text of the file at that place; with `replacing` each
    /// match carries its replacement, and the edits of each such file come
    /// back in lines and columns. Edits that reach outside the text of their
    /// file end the work with `OutOfBounds`.
    pub fn matches_of(&self, files: &Vec<FileEdits>, texts: &Vec<String>, replacing: bool) -> (found: Result<
        (Vec<SsrMatch>, Vec<FileChange>),
        QueryError,
    >)
        requires
            self.wf(),
            forall|i: int| 0 <= i < files@.len() ==> (#[trigger] files@[i]).file.0 < MAX_FILES,
        ensures
            found matches Err(e) ==> e is OutOfBounds,
            found matches Ok(pair) ==> pair.1@.len() <= files@.len() && forall|i: int|
                0 <= i < pair.1@.len() ==> self.watcher().knows((#[trigger] pair.1@[i]).file_path@),
            !replacing ==> found is Ok,
            files@.len() == 0 ==> (found matches Ok(pair) && pair.0@.len() == 0 && pair.1@.len()
                == 0),
            found matches Ok(pair) ==> all_formed(pair.0@),
            found matches Ok(pair) ==> !ranges_ordered(files@) || all_in_order(pair.0@),
            found matches Ok(pair) ==> replacing || none_replaces(pair.0@),
            exists|answers: Seq<FileAnswer>| #[trigger]
                matches_answered(self.watcher().paths(), files@, answers, texts@, replacing, found)
                    && edits_given(host_texts(self.engine()), files@, answers),
    {
        let analysis = host_analysis(&self.host);
        let mut matches: Vec<SsrMatch> = Vec::new();
        let mut changes: Vec<FileChange> = Vec::new();
        let ghost paths = self.watcher().paths();
        let ghost mut answers: Seq<FileAnswer> = Seq::empty();
        let mut seen: usize = 0;
        let mut i: usize = 0;
        proof {
            assert(files@.take(0) =~= Seq::<FileEdits>::empty());
        }
        while i < files.len()
            invariant
                i <= files@.len(),
                changes@.len() <= i,
                self.wf(),
                self.served_by(analysis),
                paths == self.watcher().paths(),
                forall|k: int| 0 <= k < files@.len() ==> (#[trigger] files@[k]).file.0 < MAX_FILES,
                forall|k: int|
                    0 <= k < changes@.len() ==> self.watcher().knows(
                        (#[trigger] changes@[k]).file_path@,
                    ),
                answers.len() == i,
                analysis_texts(analysis) == host_texts(self.engine()),
                edits_given(host_texts(self.engine()), files@, answers),
                seen == matches@.len(),
                all_formed(matches@),
                ranges_ordered(files@) ==> all_in_order(matches@),
                !replacing ==> none_replaces(matches@),
                matches_listed(paths, files@.take(i as int), answers, texts@, replacing, matches@),
                replacing ==> changes_listed(paths, files@.take(i as int), answers, changes@),
                !replacing ==> changes@.len() == 0,
            decreases files.len() - i,
        {
            let ghost before = answers;
            let ghost matched = matches@;
            let ghost changed = changes@;
            proof {
                assert(files@.take(i + 1).drop_last() =~= files@.take(i as int));
                assert(files@.take(i + 1).last() == files@[i as int]);
                assert(matched.take(matched.len() as int) =~= matched);
            }
            let file = files[i].file;
            match self.file_watcher.file_path(file) {
                None => {
                    proof {
                        answers = before.push(FileAnswer { index: None, text: None });
                    }
                },
                Some(file_path) => match analysis_line_index(&analysis, file) {
                    Err(_) => {
                        proof {
                            answers = before.push(FileAnswer { index: None, text: None });
                        }
                    },
                    Ok(index) => {
                        let text = analysis_file_text(&analysis, file);
                        let ghost answer = FileAnswer { index: Some(index), text: Some(text) };
                        proof {
                            answers = before.push(answer);
                        }
                        let mut j: usize = 0;
                        while j < files[i].edits.len()
                            invariant
                                i < files@.len(),
                                j <= files@[i as int].edits@.len(),
                                table(index).wf(),
                                answer == (FileAnswer { index: Some(index), text: Some(text) }),
                                file_path@ == paths[files@[i as int].file.0 as int],
                                seen == matches@.len(),
                                matches@.len() == matched.len() + j,
                                matches@.take(matched.len() as int) == matched,
                                all_formed(matches@),
                                ranges_ordered(files@) ==> all_in_order(matches@),
                                !replacing ==> none_replaces(matches@),
                                forall|k: int|
                                    matched.len() <= k < matches@.len() ==> match_reports(
                                        paths,
                                        files@[i as int],
                                        answer,
                                        texts@,
                                        replacing,
                                        k - matched.len(),
                                        k,
                                        #[trigger] matches@[k],
                                    ),
                            decreases files@[i as int].edits@.len() - j,
                        {
                            let ghost so_far = matches@;
                            let edit = &files[i].edits[j];
                            let in_file = match &text {
                                Ok(text) => slice_text(
                                    text.as_str(),
                                    edit.start as usize,
                                    edit.end as usize,
                                ),
                                Err(_) => None,
                            };
                            let reported = if seen < texts.len() {
                                Some(texts[seen].clone())
                            } else {
                                None
                            };
                            matches.push(
                                ssr_match_from(
                                    &index,
                                    file_path.clone(),
                                    edit,
                                    in_file,
                                    reported,
                                    replacing,
                                ),
                            );
                            proof {
                                assert(matches@.take(matched.len() as int) =~= so_far.take(
                                    matched.len() as int,
                                ));
                                assert forall|k: int|
                                    matched.len() <= k < matches@.len() implies match_reports(
                                    paths,
                                    files@[i as int],
                                    answer,
                                    texts@,
                                    replacing,
                                    k - matched.len(),
                                    k,
                                    #[trigger] matches@[k],
                                ) by {
                                    if k < so_far.len() {
                                        assert(matches@[k] == so_far[k]);
                                    }
                                }
                            }
                            seen = matches.len();
                            j = j + 1;
                        }
                        if replacing {
                            match edits_to_lines(&index, &files[i].edits) {
                                Err(e) => {
                                    proof {
                                        assert(answers.last() == answer);
                                        assert(matches_answered(
                                            paths,
                                            files@,
                                            answers,
                                            texts@,
                                            replacing,
                                            Err::<(Vec<SsrMatch>, Vec<FileChange>), QueryError>(
                                                QueryError::OutOfBounds,
                                            ),
                                        ));
                                    }
                                    return Err(QueryError::OutOfBounds);
                                },
                                Ok(edits) => {
                                    changes.push(FileChange { file_path, edits });
                                    proof {
                                        assert(changes@.drop_last() =~= changed);
                                    }
                                },
                            }
                        }
                    },
                },
            }
            proof {
                assert(answers.drop_last() =~= before);
            }
            i = i + 1;
        }
        proof {
            assert(files@.take(i as int) =~= files@);
            assert(matches_answered(
                paths,
                files@,
                answers,
                texts@,
                replacing,
                Ok::<(Vec<SsrMatch>, Vec<FileChange>), QueryError>((matches, changes)),
            ));
        }
        Ok((matches, changes))
    }

    /// The matches of the rule `pattern ==>> template` and the edits that put
    /// the template in their place, given that the engine is up to date: what
    /// `matches_of` makes, with replacements, of the edits and the matched
    /// texts that the engine's search gives. A context file that is no file
    /// of the workspace ends the work with an error, and `UnknownFile` comes
    /// in no other case.
    pub fn ssr_sync(&self, pattern: &str, context_file: Option<&str>) -> (found: Result<
        (Vec<SsrMatch>, Vec<FileChange>),
        QueryError,
    >)
        requires
            self.wf(),
        ensures
            found matches Err(e) ==> e is UnknownFile || e is EngineQueryFailed || e is OutOfBounds,
            found matches Ok(pair) ==> forall|i: int|
                0 <= i < pair.1@.len() ==> self.watcher().knows((#[trigger] pair.1@[i]).file_path@),
            (context_file matches Some(path) && !self.watcher().knows(path@)) ==> found is Err,
            (found matches Err(e) && e is UnknownFile) ==> (context_file matches Some(path)
                && !self.watcher().knows(path@)),
            found matches Ok(pair) ==> all_formed(pair.0@) && all_in_order(pair.0@),
            (found is Ok || (found matches Err(e) && e is OutOfBounds)) ==> exists|
                files: Seq<FileEdits>,
                answers: Seq<FileAnswer>,
                texts: Seq<String>,
            | #[trigger]
                matches_answered(self.watcher().paths(), files, answers, texts, true, found)
                    && edits_given(host_texts(self.engine()), files, answers),
    {
        let rule = match ssr_rule(pattern) {
            Ok(rule) => rule,
            Err(detail) => {
                return Err(QueryError::EngineQueryFailed(detail));
            },
        };
        let mut finder = match self.finder_for(context_file) {
            Ok(finder) => finder,
            Err(e) => {
                return Err(e);
            },
        };
        match finder_add_rule(&self.host, &mut finder, rule) {
            Ok(()) => {},
            Err(detail) => {
                return Err(QueryError::EngineQueryFailed(detail));
            },
        }
        let texts = finder_matched_texts(&self.host, &finder);
        let files = finder_edits(&self.host, &finder);
        self.matches_of(&files, &texts, true)
    }

    /// The matches of `pattern`, given that the engine is up to date. The
    /// engine tells the places of matches only through the edits of a rule,
    /// so the pattern is searched again as a rule with a placeholder for
    /// template, and the matches are what `matches_of` makes, without
    /// replacements, of the edits of that rule and the matched texts. Where
    /// the engine refuses that rule the matches come without place, one for
    /// each matched text. A context file that is no file of the workspace
    /// ends the work with an error, and `UnknownFile` comes in no other
    /// case.
    pub fn ssr_search_sync(&self, pattern: &str, context_file: Option<&str>) -> (found: Result<
        Vec<SsrMatch>,
        QueryError,
    >)
        requires
            self.wf(),
        ensures
            found matches Err(e) ==> e is UnknownFile || e is EngineQueryFailed,
            (context_file matches Some(path) && !self.watcher().knows(path@)) ==> found is Err,
            (found matches Err(e) && e is UnknownFile) ==> (context_file matches Some(path)
                && !self.watcher().knows(path@)),
            found matches Ok(v) ==> all_formed(v@) && all_in_order(v@) && none_replaces(v@),
            found is Ok ==> exists|
                texts: Seq<String>,
                files: Seq<FileEdits>,
                answers: Seq<FileAnswer>,
            | #[trigger] search_answered(self.watcher().paths(), texts, files, answers, found)
                    && edits_given(host_texts(self.engine()), files, answers),
    {
        let ghost paths = self.watcher().paths();
        let parsed = match ssr_pattern(pattern) {
            Ok(parsed) => parsed,
            Err(detail) => {
                return Err(QueryError::EngineQueryFailed(detail));
            },
        };
        let mut finder = match self.finder_for(context_file) {
            Ok(finder) => finder,
            Err(e) => {
                return Err(e);
            },
        };
        match finder_add_search_pattern(&self.host, &mut finder, parsed) {
            Ok(()) => {},
            Err(detail) => {
                return Err(QueryError::EngineQueryFailed(detail));
            },
        }
        let texts = finder_matched_texts(&self.host, &finder);
        let ghost reported = texts@;
        let ghost no_files = Seq::<FileEdits>::empty();
        let ghost no_answers = Seq::<FileAnswer>::empty();
        if texts.len() == 0 {
            let none: Vec<SsrMatch> = Vec::new();
            proof {
                assert(search_answered(
                    paths,
                    reported,
                    no_files,
                    no_answers,
                    Ok::<Vec<SsrMatch>, QueryError>(none),
                ));
            }
            return Ok(none);
        }
        let mut as_rule = pattern.to_owned();
        as_rule.append(" ==>> $__placeholder__");
        let placed = match ssr_rule(as_rule.as_str()) {
            Err(_) => None,
            Ok(rule) => {
                let mut second = match self.finder_for(context_file) {
                    Ok(finder) => finder,
                    Err(e) => {
                        return Err(e);
                    },
                };
                match finder_add_rule(&self.host, &mut second, rule) {
                    Err(_) => None,
                    Ok(()) => {
                        let files = finder_edits(&self.host, &second);
                        match self.matches_of(&files, &texts, false) {
                            Ok(pair) => {
                                proof {
                                    let answers = choose|answers: Seq<FileAnswer>|
                                        #[trigger] matches_answered(
                                            paths,
                                            files@,
                                            answers,
                                            reported,
                                            false,
                                            Ok::<(Vec<SsrMatch>, Vec<FileChange>), QueryError>(pair),
                                        ) && edits_given(
                                            host_texts(self.engine()),
                                            files@,
                                            answers,
                                        );
                                    assert(search_answered(
                                        paths,
                                        reported,
                                        files@,
                                        answers,
                                        Ok::<Vec<SsrMatch>, QueryError>(pair.0),
                                    ));
                                }
                                Some(pair.0)
                            },
                            Err(e) => None,
                        }
                    },
                }
            },
        };
        match placed {
            Some(matches) => Ok(matches),
            None => {
                let matches = matches_without_place(texts);
                proof {
                    assert(search_answered(
                        paths,
                        reported,
                        no_files,
                        no_answers,
                        Ok::<Vec<SsrMatch>, QueryError>(matches),
                    ));
                }
                Ok(matches)
            },
        }
    }

    /// Structural search and replace: the matches of the rule
    /// `pattern ==>> template` and the edits that put the template in their
    /// place, as `ssr_sync` gives them. Nothing is written here: the edits
    /// come back in a dry run as in any other, and `dry_run` tells the
    /// caller not to write them.
    pub fn ssr(&mut self, pattern: &str, context_file: Option<&str>, dry_run: bool) -> (outcome: Result<
        SsrResult,
        QueryError,
    >)
        requires
            old(self).wf(),
        ensures
            final(self).wf(),
            flushes(*old(self), *final(self)),
            stray_change(old(self).watcher()) ==> (outcome matches Err(e) && e is UnknownFile),
            ((context_file matches Some(path) && !old(self).watcher().knows(path@))) ==> outcome
                is Err,
            (outcome matches Err(e) && e is UnknownFile) ==> stray_change(old(self).watcher()) || (
            context_file matches Some(path) && !old(self).watcher().knows(path@)),
            outcome matches Err(e) ==> e is UnknownFile || e is EngineQueryFailed || e is OutOfBounds,
            outcome matches Ok(r) ==> r.dry_run == dry_run && r.file_changes is Some && all_formed(
                r.matches@,
            ) && all_in_order(r.matches@),
            outcome is Ok ==> exists|
                files: Seq<FileEdits>,
                answers: Seq<FileAnswer>,
                texts: Seq<String>,
            | #[trigger]
                replaced(final(self).watcher().paths(), files, answers, texts, dry_run, outcome)
                    && edits_given(host_texts(final(self).engine()), files, answers),
    {
        match self.file_watcher.drain_and_apply_changes(&mut self.host) {
            Err(e) => {
                return Err(QueryError::UnknownFile);
            },
            Ok(()) => {},
        }
        let found = self.ssr_sync(pattern, context_file);
        let ghost (files, answers, texts) = choose|
            files: Seq<FileEdits>,
            answers: Seq<FileAnswer>,
            texts: Seq<String>,
        | #[trigger] matches_answered(self.watcher().paths(), files, answers, texts, true, found)
                && edits_given(host_texts(self.engine()), files, answers);
        match found {
            Err(e) => Err(e),
            Ok((matches, file_changes)) => {
                let outcome = SsrResult { matches, file_changes: Some(file_changes), dry_run };
                proof {
                    assert(replaced(
                        self.watcher().paths(),
                        files,
                        answers,
                        texts,
                        dry_run,
                        Ok::<SsrResult, QueryError>(outcome),
                    ));
                }
                Ok(outcome)
            },
        }
    }

    /// Structural search: the matches of `pattern`, as `ssr_search_sync`
    /// gives them, each with its place or without one and none with a
    /// replacement.
    pub fn ssr_search(&mut self, pattern: &str, context_file: Option<&str>) -> (found: Result<
        Vec<SsrMatch>,
        QueryError,
    >)
        requires
            old(self).wf(),
        ensures
            final(self).wf(),
            flushes(*old(self), *final(self)),
            stray_change(old(self).watcher()) ==> (found matches Err(e) && e is UnknownFile),
            ((context_file matches Some(path) && !old(self).watcher().knows(path@))) ==> found
                is Err,
            (found matches Err(e) && e is UnknownFile) ==> stray_change(old(self).watcher()) || (
            context_file matches Some(path) && !old(self).watcher().knows(path@)),
            found matches Err(e) ==> e is UnknownFile || e is EngineQueryFailed,
            found matches Ok(v) ==> all_formed(v@) && all_in_order(v@) && none_replaces(v@),
            found is Ok ==> exists|
                texts: Seq<String>,
                files: Seq<FileEdits>,
                answers: Seq<FileAnswer>,
            | #[trigger]
                search_answered(final(self).watcher().paths(), texts, files, answers, found)
                    && edits_given(host_texts(final(self).engine()), files, answers),
    {
        match self.file_watcher.drain_and_apply_changes(&mut self.host) {
            Err(e) => {
                return Err(QueryError::UnknownFile);
            },
            Ok(()) => {},
        }
        self.ssr_search_sync(pattern, context_file)
    }
}

/// All parts of a label, one behind the other.
pub open spec fn label_text(parts: Seq<String>) -> Seq<char> {
    joined(parts, ""@)
}

/// Where the text of a hint goes and what it is: behind the range of the
/// hint a colon, a blank and the label; before it the label, a colon and a
/// blank.
pub open spec fn insertion_of(hint: RawHint) -> (int, Seq<char>) {
    if hint.after {
        (hint.end as int, ": "@ + label_text(hint.parts@))
    } else {
        (hint.start as int, label_text(hint.parts@) + ": "@)
    }
}

/// The insertions of `hints` ordered by offset, those at one offset in the
/// order of the hints.
pub open spec fn sorted_insertions(hints: Seq<RawHint>) -> Seq<(int, Seq<char>)>
    decreases hints.len(),
{
    if hints.len() == 0 {
        Seq::empty()
    } else {
        placed_behind(sorted_insertions(hints.drop_last()), insertion_of(hints.last()))
    }
}

/// The insertions of `hints`, in the order of the hints.
pub open spec fn plain_insertions(hints: Seq<RawHint>) -> Seq<(int, Seq<char>)> {
    hints.map_values(|hint: RawHint| insertion_of(hint))
}

/// What a view of the hints gives for the text `content` of the file and
/// the hints of the engine: `OutOfBounds` where the insertions of the hints
/// do not fit the text; else the text with the insertions made, each at
/// its offset and those at one offset in the order of the hints; with
/// `start_line` and `end_line`, those lines of it, and `OutOfBounds` where
/// it has no such lines.
pub open spec fn hints_shown(
    content: Seq<char>,
    hints: Seq<RawHint>,
    start_line: Option<u32>,
    end_line: Option<u32>,
    text: Result<String, QueryError>,
) -> bool {
    let annotated = with_insertions(content, sorted_insertions(hints));
    if !insertions_fit(content, plain_insertions(hints)) {
        text matches Err(e) && e is OutOfBounds
    } else {
        match (start_line, end_line) {
            (Some(start), Some(end)) => match selected_lines(
                text_line_count(encode_utf8(annotated)),
                start,
                end,
            ) {
                Some((first, beyond)) => text matches Ok(shown) && shown@ == lines_joined(
                    encode_utf8(annotated),
                    first,
                    beyond,
                ),
                None => text matches Err(e) && e is OutOfBounds,
            },
            _ => text matches Ok(shown) && shown@ == annotated,
        }
    }
}

/// The insertions that `hints` ask for in `content`, in the order of the
/// hints; `OutOfBounds` where they do not fit the text: an offset lies
/// outside it or cuts a character, or the text would grow to `u32::MAX`
/// bytes or more.
pub fn hint_insertions(content: &str, hints: &Vec<RawHint>) -> (found: Result<
    Vec<(u32, String)>,
    QueryError,
>)
    ensures
        insertions_fit(content@, plain_insertions(hints@)) ==> (found matches Ok(list)
            && list@.len() == hints@.len() && forall|k: int|
            0 <= k < list@.len() ==> ((#[trigger] list@[k]).0 as int, list@[k].1@) == insertion_of(
                hints@[k],
            )),
        !insertions_fit(content@, plain_insertions(hints@)) ==> (found matches Err(e) && e
            is OutOfBounds),
{
    let ghost all = plain_insertions(hints@);
    let length = content.as_bytes().len();
    proof {
        lemma_inserted_len_grows(all, 0);
        assert(all.take(0) =~= Seq::<(int, Seq<char>)>::empty());
    }
    if length >= u32::MAX as usize {
        return Err(QueryError::OutOfBounds);
    }
    let mut list: Vec<(u32, String)> = Vec::new();
    let mut room: usize = u32::MAX as usize - 1 - length;
    let mut i: usize = 0;
    while i < hints.len()
        invariant
            i <= hints@.len(),
            all == plain_insertions(hints@),
            length == encode_utf8(content@).len(),
            length < u32::MAX,
            list@.len() == i,
            forall|k: int|
                0 <= k < i ==> ((#[trigger] list@[k]).0 as int, list@[k].1@) == insertion_of(
                    hints@[k],
                ),
            forall|k: int| 0 <= k < i ==> fits(content@, #[trigger] all[k]),
            room + length + inserted_len(all.take(i as int)) == u32::MAX - 1,
        decreases hints.len() - i,
    {
        let (offset, text) = hint_insertion(&hints[i]);
        let added = text.as_str().as_bytes().len();
        proof {
            assert(all[i as int] == insertion_of(hints@[i as int]));
            assert(all.take(i + 1).drop_last() =~= all.take(i as int));
            lemma_inserted_len_grows(all, i + 1);
        }
        if offset as usize > length || !content.is_char_boundary(offset as usize) || added > room {
            assert(!fits(content@, all[i as int]) || length + inserted_len(all) >= u32::MAX);
            return Err(QueryError::OutOfBounds);
        }
        list.push((offset, text));
        room = room - added;
        i = i + 1;
    }
    proof {
        assert(all.take(i as int) =~= all);
    }
    Ok(list)
}

/// Where the text of a hint goes and what it is.
pub fn hint_insertion(hint: &RawHint) -> (insertion: (u32, String))
    ensures
        (insertion.0 as int, insertion.1@) == insertion_of(*hint),
{
    let label = join(&hint.parts, "");
    if hint.after {
        let mut text = ": ".to_owned();
        text.append(label.as_str());
        (hint.end, text)
    } else {
        let mut text = label;
        text.append(": ");
        (hint.start, text)
    }
}

/// The outline that the engine's items amount to in the file with the table
/// of lines `index`: one item for each, in their order.
pub fn outline_from(index: &LineIndex, nodes: Vec<RawNode>) -> (outline: Vec<FileOutlineItem>)
    requires
        table(*index).wf(),
    ensures
        outline@.len() == nodes@.len(),
        forall|i: int|
            0 <= i < outline@.len() ==> outline_item_of(table(*index), nodes@[i], #[trigger] outline@[i]),
{
    let ghost all = nodes@;
    let ghost t = table(*index);
    let mut rest = nodes;
    let mut turned: Vec<FileOutlineItem> = Vec::new();
    // Items are taken from the back, so they come out turned around and are
    // turned back below.
    while rest.len() > 0
        invariant
            t == table(*index),
            t.wf(),
            rest@.len() + turned@.len() == all.len(),
            forall|k: int| 0 <= k < rest@.len() ==> rest@[k] == all[k],
            forall|k: int|
                0 <= k < turned@.len() ==> outline_item_of(
                    t,
                    all[all.len() - 1 - k],
                    #[trigger] turned@[k],
                ),
        decreases rest.len(),
    {
        let last = rest.pop().unwrap();
        turned.push(outline_item_from(index, last));
    }
    let mut outline: Vec<FileOutlineItem> = Vec::new();
    while turned.len() > 0
        invariant
            outline@.len() + turned@.len() == all.len(),
            forall|k: int|
                0 <= k < turned@.len() ==> outline_item_of(
                    t,
                    all[all.len() - 1 - k],
                    #[trigger] turned@[k],
                ),
            forall|k: int| 0 <= k < outline@.len() ==> outline_item_of(t, all[k], #[trigger] outline@[k]),
        decreases turned.len(),
    {
        let last = turned.pop().unwrap();
        outline.push(last);
    }
    outline
}

/// The diagnostic that `given` amounts to in the file at `file_path` with
/// the table of lines `index`.
pub fn diagnostic_from(index: &LineIndex, file_path: &str, given: DiagnosticGiven) -> (found:
    DiagnosticInfo)
    requires
        table(*index).wf(),
    ensures
        diagnostic_of(table(*index), file_path@, given, found),
{
    let (line, column) = place(index, given.start);
    let (end_line, end_column) = place(index, given.end);
    DiagnosticInfo {
        message: given.message,
        severity: given.severity,
        code: given.code,
        file_path: file_path.to_owned(),
        line,
        column,
        end_line,
        end_column,
        fixes: given.fixes,
    }
}

/// The diagnostics that the engine's amount to in the file at `file_path`
/// with the table of lines `index`: one for each, in their order.
pub fn diagnostics_from(index: &LineIndex, file_path: &str, given: Vec<DiagnosticGiven>) -> (found:
    Vec<DiagnosticInfo>)
    requires
        table(*index).wf(),
    ensures
        found@.len() == given@.len(),
        forall|i: int|
            0 <= i < found@.len() ==> diagnostic_of(
                table(*index),
                file_path@,
                given@[i],
                #[trigger] found@[i],
            ),
{
    let ghost all = given@;
    let ghost t = table(*index);
    let mut rest = given;
    let mut turned: Vec<DiagnosticInfo> = Vec::new();
    // Diagnostics are taken from the back, so they come out turned around
    // and are turned back below.
    while rest.len() > 0
        invariant
            t == table(*index),
            t.wf(),
            rest@.len() + turned@.len() == all.len(),
            forall|k: int| 0 <= k < rest@.len() ==> rest@[k] == all[k],
            forall|k: int|
                0 <= k < turned@.len() ==> diagnostic_of(
                    t,
                    file_path@,
                    all[all.len() - 1 - k],
                    #[trigger] turned@[k],
                ),
        decreases rest.len(),
    {
        let last = rest.pop().unwrap();
        turned.push(diagnostic_from(index, file_path, last));
    }
    let mut found: Vec<DiagnosticInfo> = Vec::new();
    while turned.len() > 0
        invariant
            found@.len() + turned@.len() == all.len(),
            forall|k: int|
                0 <= k < turned@.len() ==> diagnostic_of(
                    t,
                    file_path@,
                    all[all.len() - 1 - k],
                    #[trigger] turned@[k],
                ),
            forall|k: int|
                0 <= k < found@.len() ==> diagnostic_of(t, file_path@, all[k], #[trigger] found@[k]),
        decreases turned.len(),
    {
        let last = turned.pop().unwrap();
        found.push(last);
    }
    found
}

/// The code actions that the engine's descriptions amount to, without their
/// edits: `None` where there are none, else one for each, in their order.
pub fn assists_from(raws: &Vec<RawAssist>) -> (found: Option<Vec<AssistInfo>>)
    ensures
        assists_answered(raws@, Ok::<Option<Vec<AssistInfo>>, QueryError>(found)),
{
    if raws.len() == 0 {
        return None;
    }
    let mut found: Vec<AssistInfo> = Vec::new();
    let mut i: usize = 0;
    while i < raws.len()
        invariant
            i <= raws@.len(),
            found@.len() == i,
            forall|k: int| 0 <= k < found@.len() ==> assist_listed(raws@[k], #[trigger] found@[k]),
        decreases raws.len() - i,
    {
        found.push(assist_info_from(&raws[i]));
        i = i + 1;
    }
    Some(found)
}

/// The completions that the engine's descriptions amount to, in their
/// order.
pub fn completions_from(raw: Vec<RawCompletion>) -> (items: Vec<CompletionItem>)
    ensures
        items@.len() == raw@.len(),
        forall|i: int| 0 <= i < items@.len() ==> completes(#[trigger] items@[i], raw@[i]),
{
    let ghost all = raw@;
    let mut rest = raw;
    let mut turned: Vec<CompletionItem> = Vec::new();
    // Descriptions are taken from the back, so the items come out turned
    // around and are turned back below.
    while rest.len() > 0
        invariant
            rest@.len() + turned@.len() == all.len(),
            forall|k: int| 0 <= k < rest@.len() ==> rest@[k] == all[k],
            forall|k: int|
                0 <= k < turned@.len() ==> completes(#[trigger] turned@[k], all[all.len() - 1 - k]),
        decreases rest.len(),
    {
        let last = rest.pop().unwrap();
        turned.push(completion_from(last));
    }
    let mut items: Vec<CompletionItem> = Vec::new();
    while turned.len() > 0
        invariant
            items@.len() + turned@.len() == all.len(),
            forall|k: int|
                0 <= k < turned@.len() ==> completes(#[trigger] turned@[k], all[all.len() - 1 - k]),
            forall|k: int| 0 <= k < items@.len() ==> completes(#[trigger] items@[k], all[k]),
        decreases turned.len(),
    {
        let last = turned.pop().unwrap();
        items.push(last);
    }
    items
}

/// The matches of a structural search whose places could not be found.
pub fn matches_without_place(texts: Vec<String>) -> (found: Vec<SsrMatch>)
    ensures
        without_place(texts@, found@),
        all_formed(found@),
        all_in_order(found@),
        none_replaces(found@),
{
    let mut found: Vec<SsrMatch> = Vec::new();
    let mut i: usize = 0;
    while i < texts.len()
        invariant
            i <= texts@.len(),
            found@.len() == i,
            all_in_order(found@),
            without_place(texts@.take(i as int), found@),
        decreases texts.len() - i,
    {
        found.push(ssr_match_without_place(texts[i].clone()));
        i = i + 1;
    }
    proof {
        assert(texts@.take(i as int) =~= texts@);
    }
    found
}

/// Number of ranges in `files`, all files together.
pub open spec fn ranges_total(files: Seq<FileRanges>) -> nat
    decreases files.len(),
{
    if files.len() == 0 {
        0
    } else {
        ranges_total(files.drop_last()) + files.last().ranges@.len()
    }
}

/// `count` and `more` together, or `usize::MAX` where that is too much.
pub open spec fn capped(count: nat, more: nat) -> nat {
    if count + more > usize::MAX {
        usize::MAX as nat
    } else {
        count + more
    }
}

/// `count` raised by the number of ranges in `files`; `usize::MAX` where
/// there are more.
pub fn count_ranges(count: usize, files: &Vec<FileRanges>) -> (total: usize)
    ensures
        total == capped(count as nat, ranges_total(files@)),
{
    let mut total: usize = count;
    let mut i: usize = 0;
    assert(files@.take(0) =~= Seq::<FileRanges>::empty());
    while i < files.len()
        invariant
            i <= files@.len(),
            total == capped(count as nat, ranges_total(files@.take(i as int))),
        decreases files.len() - i,
    {
        proof {
            assert(files@.take(i + 1).drop_last() =~= files@.take(i as int));
            assert(files@.take(i + 1).last() == files@[i as int]);
        }
        total = total.saturating_add(files[i].ranges.len());
        i = i + 1;
    }
    proof {
        assert(files@.take(i as int) =~= files@);
    }
    total
}

/// Number of uses that `results` hold, all searches together.
pub open spec fn uses_total(results: Seq<ReferenceSearchResult>) -> nat
    decreases results.len(),
{
    if results.len() == 0 {
        0
    } else {
        uses_total(results.drop_last()) + found_uses(results.last()).len()
    }
}

/// The ranges of `files` are as many as the uses in them.
pub proof fn lemma_ranges_are_uses(files: Seq<FileRanges>)
    ensures
        ranges_total(files) == uses_of(files).len(),
    decreases files.len(),
{
    if files.len() > 0 {
        lemma_ranges_are_uses(files.drop_last());
    }
}

/// Number of uses that searches for references found, all searches and
/// files together; `usize::MAX` where there are more.
pub fn count_references(results: &Vec<ReferenceSearchResult>) -> (count: usize)
    ensures
        count == capped(0, uses_total(results@)),
{
    let mut count: usize = 0;
    let mut i: usize = 0;
    assert(results@.take(0) =~= Seq::<ReferenceSearchResult>::empty());
    while i < results.len()
        invariant
            i <= results@.len(),
            count == capped(0, uses_total(results@.take(i as int))),
        decreases results.len() - i,
    {
        let files = reference_ranges(&results[i]);
        proof {
            assert(results@.take(i + 1).drop_last() =~= results@.take(i as int));
            assert(results@.take(i + 1).last() == results@[i as int]);
            lemma_ranges_are_uses(files@);
            vstd::seq_lib::to_multiset_len(uses_of(files@));
        }
        count = count_ranges(count, &files);
        i = i + 1;
    }
    proof {
        assert(results@.take(i as int) =~= results@);
    }
    count
}

/// The line of `text` on which `offset` lies by the table `index`, without
/// its line ending; empty where the offset has no position or the text no
/// such line.
pub fn line_of(index: &LineIndex, text: &str, offset: u32) -> (content: String)
    requires
        table(*index).wf(),
    ensures
        content@ == if place_of(table(*index), offset).0 == 0 {
            Seq::<char>::empty()
        } else {
            line_chars(text.spec_bytes(), place_of(table(*index), offset).0 - 1)
        },
{
    let (line, _) = place(index, offset);
    if line == 0 {
        String::new()
    } else {
        line_content(text, (line - 1) as usize)
    }
}

/// Looking for the symbol never changes the path of the cursor.
pub proof fn lemma_resolved_path(raw: CursorCoordinates, disk_text: Option<&str>)
    ensures
        cursor_on_disk(raw, disk_text).file_path == raw.file_path,
        cursor_on_disk(raw, disk_text).symbol == raw.symbol,
        raw.line >= 1 && raw.column >= 1 ==> cursor_on_disk(raw, disk_text).line >= 1
            && cursor_on_disk(raw, disk_text).column >= 1,
{
    match (raw.symbol, disk_text) {
        (Some(_), Some(text)) => {
            lemma_resolved_on_symbol(raw, text.spec_bytes());
        },
        _ => {},
    }
}

/// The module paths that hover actions lead to, action by action.
pub fn action_paths(actions: &Vec<HoverAction>) -> (paths: Vec<Vec<String>>)
    ensures
        paths@.len() == actions@.len(),
{
    let mut paths: Vec<Vec<String>> = Vec::new();
    let mut i: usize = 0;
    while i < actions.len()
        invariant
            i <= actions@.len(),
            paths@.len() == i,
        decreases actions.len() - i,
    {
        paths.push(hover_action_paths(&actions[i]));
        i = i + 1;
    }
    paths
}

/// All strings of `lists`, list by list.
pub open spec fn concatenated(lists: Seq<Vec<String>>) -> Seq<String>
    decreases lists.len(),
{
    if lists.len() == 0 {
        Seq::empty()
    } else {
        concatenated(lists.drop_last()) + lists.last()@
    }
}

/// The type hint for a hover at `cursor` with the text `markup` and the
/// module paths `paths`, which are listed action by action.
pub fn type_hint_from(cursor: &CursorCoordinates, markup: String, paths: Vec<Vec<String>>) -> (hint:
    TypeHint)
    ensures
        hint.file_path == cursor.file_path,
        hint.line == cursor.line,
        hint.column == cursor.column,
        hint.symbol == markup,
        hint.canonical_types@ == concatenated(paths@),
{
    let mut canonical_types: Vec<String> = Vec::new();
    let mut i: usize = 0;
    while i < paths.len()
        invariant
            i <= paths@.len(),
            canonical_types@ == concatenated(paths@.take(i as int)),
        decreases paths.len() - i,
    {
        let mut j: usize = 0;
        let ghost before = canonical_types@;
        while j < paths[i].len()
            invariant
                i < paths@.len(),
                j <= paths@[i as int]@.len(),
                canonical_types@ == before + paths@[i as int]@.take(j as int),
            decreases paths[i as int]@.len() - j,
        {
            canonical_types.push(paths[i][j].clone());
            assert(paths@[i as int]@.take(j + 1) =~= paths@[i as int]@.take(j as int).push(
                paths@[i as int]@[j as int],
            ));
            j = j + 1;
        }
        proof {
            assert(paths@[i as int]@.take(j as int) =~= paths@[i as int]@);
            assert(paths@.take(i + 1).drop_last() =~= paths@.take(i as int));
        }
        i = i + 1;
    }
    proof {
        assert(paths@.take(i as int) =~= paths@);
    }
    TypeHint {
        file_path: cursor.file_path.clone(),
        line: cursor.line,
        column: cursor.column,
        symbol: markup,
        canonical_types,
    }
}

} // verus!
