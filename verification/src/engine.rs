//! The semantic engine, `ra_ap_ide`, as this library calls it.
//!
//! Every function here hands one query to the engine, or reads one of its
//! values, and restates what comes back in values of this library. Of what
//! the engine answers nothing is promised but what its types guarantee: that
//! a range ends at or behind its start, and that a file identifier lies
//! below `MAX_FILES`. The functions that call these take every answer as it
//! comes.
//!
//! The engine stops the program when it is asked about a file that it does
//! not hold, and it measures texts in 32 bits. So `host_texts` and
//! `analysis_texts` name the files that an engine holds, with their texts;
//! every query on a file requires that the engine holds the file, with a
//! text shorter than `u32::MAX` bytes, and every query at an offset that
//! the offset lies in that text and cuts no character.

use vstd::prelude::*;
use vstd::utf8::{encode_utf8, is_char_boundary};
use ra_ap_hir::ChangeWithProcMacros;
use ra_ap_ide::{
    Analysis, AnalysisHost, Assist, AssistConfig, AssistResolveStrategy, CallHierarchyConfig,
    CallItem, CallableSnippets, CompletionConfig, CompletionFieldsToResolve, CompletionItemKind,
    Diagnostic, DiagnosticsConfig, ExprFillDefaultMode, FileId, FilePosition, FileRange,
    FileStructureConfig, FindAllRefsConfig, GotoImplementationConfig, HoverAction, HoverConfig,
    HoverDocFormat, InlayFieldsToResolve, InlayHint, InlayHintPosition, InlayHintsConfig,
    LineIndex, MonikerResult, NavigationTarget, Query, ReferenceSearchResult, RenameConfig,
    SourceChange, StructureNode, StructureNodeKind, SubstTyLen, TextRange,
};
use ra_ap_ide_db::text_edit::TextEditBuilder;
use ra_ap_ide_db::imports::insert_use::{ImportGranularity, InsertUseConfig, PrefixKind};
use ra_ap_ide_db::{MiniCore, SymbolKind};
use ra_ap_ide_ssr::{MatchFinder, SsrPattern, SsrRule};
use crate::changes::{ByteEdit, FileEdits};
use crate::entities::{MacroExpansion, SignatureInfo};
use crate::position::table;
use crate::tracker::{FileHandle, MAX_FILES};

verus! {

#[verifier::external_type_specification]
#[verifier::external_body]
pub struct ExAnalysisHost(AnalysisHost);

#[verifier::external_type_specification]
#[verifier::external_body]
pub struct ExAnalysis(Analysis);

#[verifier::external_type_specification]
#[verifier::external_body]
pub struct ExChange(ChangeWithProcMacros);

#[verifier::external_type_specification]
#[verifier::external_body]
pub struct ExNavigationTarget(NavigationTarget);

#[verifier::external_type_specification]
#[verifier::external_body]
pub struct ExHoverAction(HoverAction);

#[verifier::external_type_specification]
#[verifier::external_body]
pub struct ExCompletionConfig<'a>(CompletionConfig<'a>);

#[verifier::external_type_specification]
#[verifier::external_body]
pub struct ExReferenceSearchResult(ReferenceSearchResult);

#[verifier::external_type_specification]
#[verifier::external_body]
pub struct ExSourceChange(SourceChange);

#[verifier::external_type_specification]
#[verifier::external_body]
pub struct ExAssist(Assist);

#[verifier::external_type_specification]
#[verifier::external_body]
pub struct ExDiagnostic(Diagnostic);

#[verifier::external_type_specification]
#[verifier::external_body]
pub struct ExStructureNode(StructureNode);

#[verifier::external_type_specification]
#[verifier::external_body]
pub struct ExCallItem(CallItem);

#[verifier::external_type_specification]
#[verifier::external_body]
pub struct ExInsertUseConfig(InsertUseConfig);

#[verifier::external_type_specification]
#[verifier::external_body]
pub struct ExInlayHintsConfig<'a>(InlayHintsConfig<'a>);

#[verifier::external_type_specification]
#[verifier::external_body]
pub struct ExInlayHint(InlayHint);

#[verifier::external_type_specification]
#[verifier::external_body]
pub struct ExTextEditBuilder(TextEditBuilder);

#[verifier::external_type_specification]
#[verifier::external_body]
pub struct ExSsrRule(SsrRule);

#[verifier::external_type_specification]
#[verifier::external_body]
pub struct ExSsrPattern(SsrPattern);

#[verifier::external_type_specification]
#[verifier::external_body]
pub struct ExMatchFinder<'db>(MatchFinder<'db>);

/// The files that a change tells the engine of, in the order in which they
/// were added: the file and its new text, or `None` for a file that is gone.
pub uninterp spec fn change_files(change: ChangeWithProcMacros) -> Seq<(int, Option<Seq<char>>)>;

/// The uses of a symbol that a search for references holds: for each range
/// of each file of its map of references the file and the start and end of
/// the range.
pub uninterp spec fn found_uses(result: ReferenceSearchResult) -> vstd::multiset::Multiset<
    (int, int, int),
>;

/// The files that an engine holds, each with its text: the files that have
/// a source root and a text in its database.
pub uninterp spec fn host_texts(host: AnalysisHost) -> Map<int, Seq<char>>;

/// The files that a snapshot of the engine holds, each with its text.
pub uninterp spec fn analysis_texts(analysis: Analysis) -> Map<int, Seq<char>>;

/// `file` is one of the files of `texts`, and its text is shorter than
/// `u32::MAX` bytes: the engine measures texts in 32 bits.
pub open spec fn holds(texts: Map<int, Seq<char>>, file: FileHandle) -> bool {
    held(texts, file.0 as int)
}

/// The file with the identifier `file` is one of the files of `texts`, and
/// its text is shorter than `u32::MAX` bytes.
pub open spec fn held(texts: Map<int, Seq<char>>, file: int) -> bool {
    texts.dom().contains(file) && encode_utf8(texts[file]).len() < u32::MAX
}

/// A text that a change gives a file is shorter than `u32::MAX` bytes.
pub open spec fn short(text: Option<Seq<char>>) -> bool {
    text matches Some(t) ==> encode_utf8(t).len() < u32::MAX
}

/// A text stays shorter than `u32::MAX` bytes under changes whose texts
/// are.
pub proof fn lemma_text_after_short(text: Seq<char>, file: int, changes: Seq<(int, Option<Seq<char>>)>)
    requires
        encode_utf8(text).len() < u32::MAX,
        forall|i: int| 0 <= i < changes.len() ==> short((#[trigger] changes[i]).1),
    ensures
        encode_utf8(text_after(text, file, changes)).len() < u32::MAX,
    decreases changes.len(),
{
    if changes.len() > 0 {
        if changes.last().0 == file {
            assert(short(changes.last().1));
            if changes.last().1 is None {
                assert(encode_utf8(Seq::<char>::empty()).len() == 0) by {
                    reveal_with_fuel(encode_utf8, 1);
                }
            }
        } else {
            lemma_text_after_short(text, file, changes.drop_last());
        }
    }
}

/// `file` is one of the files of `texts`, and `offset` lies in its text or
/// at its end and cuts no character: the engine cuts the text at the offset
/// of some queries, and strings cannot be cut inside a character.
pub open spec fn in_text(texts: Map<int, Seq<char>>, file: FileHandle, offset: u32) -> bool {
    holds(texts, file) && offset <= encode_utf8(texts[file.0 as int]).len() && is_char_boundary(
        encode_utf8(texts[file.0 as int]),
        offset as int,
    )
}

/// The text of `file` after `changes` were applied in their order to an
/// engine that held `text` for it: that of the last change to the file, the
/// empty text where that change says the file is gone, and `text` where no
/// change names the file.
pub open spec fn text_after(text: Seq<char>, file: int, changes: Seq<(int, Option<Seq<char>>)>) -> Seq<
    char,
>
    decreases changes.len(),
{
    if changes.len() == 0 {
        text
    } else if changes.last().0 == file {
        match changes.last().1 {
            Some(new_text) => new_text,
            None => Seq::empty(),
        }
    } else {
        text_after(text, file, changes.drop_last())
    }
}

/// A place that the engine points to, in its own coordinates.
#[derive(Debug, Clone)]
pub struct NavTarget {
    pub file: FileHandle,
    /// The range to put the cursor on: that of the name where there is one,
    /// else that of the whole item.
    pub focus_start: u32,
    pub focus_end: u32,
    /// The range of the whole item.
    pub full_start: u32,
    pub full_end: u32,
    pub name: String,
    pub kind: Option<SymbolKind>,
    pub container: Option<String>,
    pub description: Option<String>,
}

/// What the engine shows at a position.
pub struct HoverInfo {
    pub markup: String,
    pub actions: Vec<HoverAction>,
}

/// A completion as the engine describes it.
pub struct RawCompletion {
    pub name: String,
    pub kind: String,
    pub detail: Option<String>,
    pub documentation: Option<String>,
    pub imports: Vec<String>,
    pub deprecated: bool,
}

/// The references to one symbol in one file.
pub struct FileRanges {
    pub file: FileHandle,
    pub ranges: Vec<(u32, u32)>,
}

/// A code action as the engine describes it.
pub struct RawAssist {
    pub id: String,
    pub group: Option<String>,
    pub label: String,
    pub target: String,
    pub source_change: Option<SourceChange>,
}

/// A diagnostic as the engine describes it.
pub struct RawDiagnostic {
    pub message: String,
    pub severity: String,
    pub code: String,
    pub start: u32,
    pub end: u32,
    pub fixes: Vec<Assist>,
}

/// An item of a file's outline as the engine describes it.
pub struct RawNode {
    pub parent: Option<usize>,
    pub label: String,
    pub kind: String,
    pub detail: Option<String>,
    pub start: u32,
    pub end: u32,
    pub deprecated: bool,
}

/// A hint that the engine would show in the text: the parts of its label,
/// the range it belongs to, and whether it stands behind or before it.
pub struct RawHint {
    pub parts: Vec<String>,
    pub after: bool,
    pub start: u32,
    pub end: u32,
}

/// What the engine knows of the unique name of a symbol.
pub enum RawMoniker {
    /// The symbol has a unique name: its crate and the names on the path to
    /// it.
    Global { crate_name: String, parts: Vec<String> },
    /// The symbol is local to a function.
    Local,
    /// The engine found a symbol and no name for it.
    Nameless,
    /// The engine found no symbol, or gave up.
    Unavailable,
}

/// `AnalysisHost::analysis`: a snapshot of the engine's state to put
/// queries to. It holds the files that the engine holds, with their texts.
#[verifier::external_body]
pub(crate) fn host_analysis(host: &AnalysisHost) -> (analysis: Analysis)
    ensures
        analysis_texts(analysis) == host_texts(*host),
{
    host.analysis()
}

/// `ChangeWithProcMacros::default`: a change that names no file.
#[verifier::external_body]
pub(crate) fn change_new() -> (change: ChangeWithProcMacros)
    ensures
        change_files(change).len() == 0,
{
    ChangeWithProcMacros::default()
}

/// `ChangeWithProcMacros::change_file`: adds one file to the change, behind
/// those that it names already. `FileId::from_raw` takes identifiers up to
/// `0x7fff_ffff` only.
#[verifier::external_body]
pub(crate) fn change_file(change: &mut ChangeWithProcMacros, file: FileHandle, content: Option<String>)
    requires
        file.0 < MAX_FILES,
    ensures
        change_files(*final(change)) == change_files(*old(change)).push(
            (file.0 as int, crate::tracker::text_of(content)),
        ),
{
    change.change_file(FileId::from_raw(file.0), content)
}

/// `AnalysisHost::apply_change`: tells the engine of changed files. The
/// engine looks up the source root of each file of the change, and stops
/// the program where it has none, so the change may name only files that
/// the engine holds. It then sets the text of each in the order of the
/// change, the empty text for a file that is gone; it drops no file and
/// leaves the text of every other file as it is.
///
/// The engine waits with the change until every snapshot of it has been
/// dropped. This library keeps its snapshots inside the query that made
/// them, and lends one out only in a `CursorQuery`, which borrows the
/// session; so none of its own is out when a change is handed on. A caller
/// that takes snapshots from its own `AnalysisHost` must drop them first.
#[verifier::external_body]
pub(crate) fn host_apply_change(host: &mut AnalysisHost, change: ChangeWithProcMacros)
    requires
        forall|i: int|
            0 <= i < change_files(change).len() ==> host_texts(*old(host)).dom().contains(
                (#[trigger] change_files(change)[i]).0,
            ),
    ensures
        forall|file: int|
            host_texts(*old(host)).dom().contains(file) ==> #[trigger] host_texts(
                *final(host),
            ).dom().contains(file),
        forall|file: int|
            host_texts(*old(host)).dom().contains(file) ==> #[trigger] host_texts(*final(host))[file]
                == text_after(host_texts(*old(host))[file], file, change_files(change)),
{
    host.apply_change(change)
}

/// `Analysis::file_line_index`: the table of lines of a file as the engine
/// holds it. The engine makes it with `LineIndex::new` from the text of the
/// file, so it is well formed and the table of that text. The engine stops
/// the program when asked for a file that it does not hold, and
/// `LineIndex::new` where the text has `u32::MAX` bytes or more.
#[verifier::external_body]
pub(crate) fn analysis_line_index(analysis: &Analysis, file: FileHandle) -> (index: Result<
    LineIndex,
    String,
>)
    requires
        file.0 < MAX_FILES,
        holds(analysis_texts(*analysis), file),
    ensures
        index matches Ok(i) ==> table(i).wf(),
        index matches Ok(i) ==> table(i) == crate::position::table_of(
            encode_utf8(analysis_texts(*analysis)[file.0 as int]),
        ),
{
    analysis.file_line_index(FileId::from_raw(file.0)).map(|i| (*i).clone()).map_err(
        |e| format!("{e:?}"),
    )
}

/// `Analysis::file_text`: the text of a file as the engine holds it. The
/// engine stops the program when asked for a file that it does not hold.
#[verifier::external_body]
pub(crate) fn analysis_file_text(analysis: &Analysis, file: FileHandle) -> (text: Result<String, String>)
    requires
        file.0 < MAX_FILES,
        holds(analysis_texts(*analysis), file),
    ensures
        text matches Ok(t) ==> t@ == analysis_texts(*analysis)[file.0 as int],
{
    analysis.file_text(FileId::from_raw(file.0)).map(|t| t.to_string()).map_err(
        |e| format!("{e:?}"),
    )
}

/// An `InsertUseConfig`: the rules by which the engine writes imports,
/// shared by the queries that may add one.
#[verifier::external_body]
pub(crate) fn insert_use_config() -> (config: InsertUseConfig) {
    InsertUseConfig {
        granularity: ImportGranularity::Crate,
        enforce_granularity: true,
        prefix_kind: PrefixKind::Plain,
        group: true,
        skip_glob_imports: true,
    }
}

/// `Analysis::hover` at one offset, documentation as plain text.
#[verifier::external_body]
pub(crate) fn engine_hover(analysis: &Analysis, file: FileHandle, offset: u32) -> (found: Result<
    Option<HoverInfo>,
    String,
>)
    requires
        file.0 < MAX_FILES,
        in_text(analysis_texts(*analysis), file, offset),
{
    let config = HoverConfig {
        links_in_hover: true, memory_layout: None, documentation: true, keywords: true,
        format: HoverDocFormat::PlainText, max_trait_assoc_items_count: Some(10),
        max_fields_count: Some(10), max_enum_variants_count: Some(10),
        max_subst_ty_len: SubstTyLen::Unlimited, show_drop_glue: false,
        minicore: MiniCore::default(),
    };
    let range = FileRange { file_id: FileId::from_raw(file.0), range: TextRange::empty(offset.into()) };
    analysis.hover(&config, range).map_err(|e| format!("{e:?}")).map(
        |found| found.map(|r| HoverInfo { markup: r.info.markup.to_string(), actions: r.info.actions }),
    )
}

/// The module paths of the types that a `HoverAction::GoToType` leads to;
/// none for an action of another kind.
#[verifier::external_body]
pub(crate) fn hover_action_paths(action: &HoverAction) -> (paths: Vec<String>) {
    match action {
        HoverAction::GoToType(types) => types.iter().map(|t| t.mod_path.clone()).collect(),
        _ => Vec::new(),
    }
}

/// A `CompletionConfig`: postfix completions and automatic
/// `iter` and `await`, arguments filled in, no snippets, no imports on the
/// fly, at most 200 candidates.
#[verifier::external_body]
pub(crate) fn completion_config(insert_use: InsertUseConfig) -> (config: CompletionConfig<'static>) {
    CompletionConfig {
        enable_postfix_completions: true, enable_imports_on_the_fly: false,
        enable_self_on_the_fly: false, enable_auto_iter: true, enable_auto_await: true,
        enable_private_editable: false, enable_term_search: false, term_search_fuel: 400,
        full_function_signatures: false, callable: Some(CallableSnippets::FillArguments),
        add_semicolon_to_unit: false, snippet_cap: None, insert_use, prefer_no_std: false,
        prefer_prelude: true, prefer_absolute: false, snippets: vec![], limit: Some(200),
        fields_to_resolve: CompletionFieldsToResolve::empty(), exclude_flyimport: vec![],
        exclude_traits: &[], minicore: MiniCore::default(),
    }
}

/// `Analysis::completions` at one offset, as after a typed `.`. The kind of
/// a candidate is the name of the engine's kind of completion, or of the
/// kind of symbol where it completes a symbol.
#[verifier::external_body]
pub(crate) fn engine_completions(analysis: &Analysis, config: &CompletionConfig<'static>, file: FileHandle, offset: u32) -> (found:
    Result<Option<Vec<RawCompletion>>, String>)
    requires
        file.0 < MAX_FILES,
        in_text(analysis_texts(*analysis), file, offset),
{
    let position = FilePosition { file_id: FileId::from_raw(file.0), offset: offset.into() };
    let found = analysis.completions(config, position, Some('.')).map_err(|e| format!("{e:?}"))?;
    Ok(found.map(|items| items.into_iter().map(|item| RawCompletion {
        name: item.label.primary.to_string(),
        kind: match item.kind {
            CompletionItemKind::SymbolKind(kind) => format!("{kind:?}"),
            other => format!("{other:?}"),
        },
        detail: item.detail,
        documentation: item.documentation.map(|d| d.as_str().to_string()),
        imports: item.import_to_add.to_vec(),
        deprecated: item.deprecated,
    }).collect()))
}

/// The fields of a `NavigationTarget`; the range to put the cursor on is
/// what `NavigationTarget::focus_or_full_range` gives.
#[verifier::external_body]
pub(crate) fn nav_target(nav: &NavigationTarget) -> (target: NavTarget)
    ensures
        target.file.0 < MAX_FILES,
        target.focus_start <= target.focus_end,
        target.full_start <= target.full_end,
{
    NavTarget {
        file: FileHandle(nav.file_id.index()),
        focus_start: nav.focus_or_full_range().start().into(),
        focus_end: nav.focus_or_full_range().end().into(),
        full_start: nav.full_range.start().into(),
        full_end: nav.full_range.end().into(),
        name: nav.name.to_string(),
        kind: nav.kind,
        container: nav.container_name.as_ref().map(|n| n.to_string()),
        description: nav.description.clone(),
    }
}

/// The name of a `SymbolKind`, as its `Debug` prints it.
#[verifier::external_body]
pub(crate) fn symbol_kind_name(kind: SymbolKind) -> (name: String) {
    format!("{kind:?}")
}

/// `Analysis::goto_implementation` at one offset, implementations that a
/// derive next to the item wrote left out.
#[verifier::external_body]
pub(crate) fn engine_goto_implementation(analysis: &Analysis, file: FileHandle, offset: u32) -> (found:
    Result<Option<Vec<NavigationTarget>>, String>)
    requires
        file.0 < MAX_FILES,
        in_text(analysis_texts(*analysis), file, offset),
{
    let config = GotoImplementationConfig { filter_adjacent_derive_implementations: true };
    let position = FilePosition { file_id: FileId::from_raw(file.0), offset: offset.into() };
    analysis.goto_implementation(&config, position).map_err(|e| format!("{e:?}")).map(
        |found| found.map(|r| r.info),
    )
}

/// `Analysis::moniker` at one offset: the names that the engine gives the
/// symbol there, in its order, each `Global` or `Local`.
#[verifier::external_body]
pub(crate) fn engine_monikers(analysis: &Analysis, file: FileHandle, offset: u32) -> (names: Result<
    Option<Vec<RawMoniker>>,
    String,
>)
    requires
        file.0 < MAX_FILES,
        in_text(analysis_texts(*analysis), file, offset),
    ensures
        names matches Ok(Some(list)) ==> forall|i: int|
            0 <= i < list@.len() ==> (#[trigger] list@[i]) is Global || list@[i] is Local,
{
    let position = FilePosition { file_id: FileId::from_raw(file.0), offset: offset.into() };
    analysis.moniker(position).map_err(|e| format!("{e:?}")).map(|found| found.map(|r| r.info.iter().map(|m| match m {
        MonikerResult::Moniker(m) => RawMoniker::Global {
            crate_name: m.identifier.crate_name.clone(),
            parts: m.identifier.description.iter().map(|d| d.name.clone()).collect(),
        },
        MonikerResult::Local { .. } => RawMoniker::Local,
    }).collect()))
}

/// `Analysis::find_all_refs` at one offset, in the whole workspace.
#[verifier::external_body]
pub(crate) fn engine_find_all_refs(analysis: &Analysis, file: FileHandle, offset: u32) -> (found: Result<
    Option<Vec<ReferenceSearchResult>>,
    String,
>)
    requires
        file.0 < MAX_FILES,
        in_text(analysis_texts(*analysis), file, offset),
{
    let config = FindAllRefsConfig { search_scope: None, minicore: MiniCore::default() };
    let position = FilePosition { file_id: FileId::from_raw(file.0), offset: offset.into() };
    analysis.find_all_refs(position, &config).map_err(|e| format!("{e:?}"))
}

/// `ReferenceSearchResult::declaration`: where the symbol of a search for
/// references is declared, if the engine knows.
#[verifier::external_body]
pub(crate) fn reference_declaration(result: &ReferenceSearchResult) -> (declaration: Option<NavigationTarget>) {
    result.declaration.as_ref().map(|d| d.nav.clone())
}

/// The uses in `files`, each as its file and the start and end of its
/// range, file by file.
pub open spec fn uses_of(files: Seq<FileRanges>) -> Seq<(int, int, int)>
    decreases files.len(),
{
    if files.len() == 0 {
        Seq::empty()
    } else {
        uses_of(files.drop_last()) + files.last().ranges@.map_values(
            |r: (u32, u32)| (files.last().file.0 as int, r.0 as int, r.1 as int),
        )
    }
}

/// `ReferenceSearchResult::references`: the references of a search, file by
/// file, in the order in which the engine's map gives the files. Every
/// range of every file of the map is handed out once, so whatever the order
/// of the files, the uses handed out are those that the search holds.
#[verifier::external_body]
pub(crate) fn reference_ranges(result: &ReferenceSearchResult) -> (files: Vec<FileRanges>)
    ensures
        forall|i: int| 0 <= i < files@.len() ==> (#[trigger] files@[i]).file.0 < MAX_FILES,
        uses_of(files@).to_multiset() == found_uses(*result),
{
    result.references.iter().map(
        |(file, ranges)|
            FileRanges {
                file: FileHandle(file.index()),
                ranges: ranges.iter().map(|(r, _)| (r.start().into(), r.end().into())).collect(),
            },
    ).collect()
}

/// `Analysis::rename` at one offset. `Ok(None)` where the engine refuses
/// the rename.
#[verifier::external_body]
pub(crate) fn engine_rename(analysis: &Analysis, file: FileHandle, offset: u32, new_name: &str) -> (change:
    Result<Option<SourceChange>, String>)
    requires
        file.0 < MAX_FILES,
        in_text(analysis_texts(*analysis), file, offset),
{
    let config = RenameConfig {
        prefer_no_std: false,
        prefer_prelude: true,
        prefer_absolute: false,
        show_conflicts: true,
    };
    let position = FilePosition { file_id: FileId::from_raw(file.0), offset: offset.into() };
    analysis.rename(position, new_name, &config).map_err(|e| format!("{e:?}")).map(|r| r.ok())
}

/// `SourceChange::source_file_edits`: the text edits of a change, file by
/// file, in the order in which the engine's map gives the files; within a
/// file in the engine's order, which is document order. The map is keyed by
/// file, so no file comes twice, and a range never ends before it starts.
#[verifier::external_body]
pub(crate) fn source_change_edits(change: &SourceChange) -> (files: Vec<FileEdits>)
    ensures
        forall|i: int| 0 <= i < files@.len() ==> (#[trigger] files@[i]).file.0 < MAX_FILES,
        forall|i: int, j: int|
            0 <= i < j < files@.len() ==> (#[trigger] files@[i]).file != (#[trigger] files@[j]).file,
        forall|i: int, j: int|
            0 <= i < files@.len() && 0 <= j < files@[i].edits@.len() ==> (#[trigger] files@[i].edits@[j]).start
                <= files@[i].edits@[j].end,
{
    change.source_file_edits.iter().map(
        |(file, (edit, _))|
            FileEdits {
                file: FileHandle(file.index()),
                edits: edit.iter().map(
                    |i|
                        ByteEdit {
                            start: i.delete.start().into(),
                            end: i.delete.end().into(),
                            insert: i.insert.clone(),
                        },
                ).collect(),
            },
    ).collect()
}

/// `SourceChange::is_snippet`: whether a change holds snippet placeholders.
#[verifier::external_body]
pub(crate) fn source_change_is_snippet(change: &SourceChange) -> (is_snippet: bool) {
    change.is_snippet
}

/// `ra_ap_ide_assists::assists` at one offset: the code actions on offer,
/// with their edits where `resolve` is set. The engine's database is
/// attached for the call, as the engine does for its own queries.
#[verifier::external_body]
pub(crate) fn engine_assists(host: &AnalysisHost, file: FileHandle, offset: u32, resolve: bool, insert_use: InsertUseConfig) -> (found:
    Vec<Assist>)
    requires
        file.0 < MAX_FILES,
        in_text(host_texts(*host), file, offset),
{
    let config = AssistConfig {
        snippet_cap: None, allowed: None, insert_use, prefer_no_std: false, prefer_prelude: false,
        prefer_absolute: false, assist_emit_must_use: false, term_search_fuel: 400,
        term_search_borrowck: true, code_action_grouping: false,
        expr_fill_default: ExprFillDefaultMode::Todo, prefer_self_ty: false,
        show_rename_conflicts: true,
    };
    let strategy = if resolve { AssistResolveStrategy::All } else { AssistResolveStrategy::None };
    let range = FileRange { file_id: FileId::from_raw(file.0), range: TextRange::empty(offset.into()) };
    let db = host.raw_database();
    ra_ap_hir::attach_db(db, || ra_ap_ide_assists::assists(db, &config, strategy, range))
}

/// The fields of an `Assist`.
#[verifier::external_body]
pub(crate) fn assist_fields(assist: &Assist) -> (fields: RawAssist) {
    RawAssist {
        id: assist.id.0.to_string(),
        group: assist.group.as_ref().map(|g| g.0.clone()),
        label: assist.label.to_string(),
        target: format!("{:?}", assist.target),
        source_change: assist.source_change.clone(),
    }
}

/// `Analysis::full_diagnostics` of one file, fixes with their edits.
#[verifier::external_body]
pub(crate) fn engine_diagnostics(analysis: &Analysis, file: FileHandle, insert_use: InsertUseConfig) -> (found:
    Result<Vec<Diagnostic>, String>)
    requires
        file.0 < MAX_FILES,
        holds(analysis_texts(*analysis), file),
{
    let config = DiagnosticsConfig {
        enabled: true, proc_macros_enabled: true, proc_attr_macros_enabled: true,
        disable_experimental: false, disabled: Default::default(),
        expr_fill_default: ExprFillDefaultMode::Todo, style_lints: false, snippet_cap: None,
        insert_use, prefer_no_std: false, prefer_prelude: true, prefer_absolute: false,
        term_search_fuel: 400, term_search_borrowck: true, show_rename_conflicts: true,
    };
    analysis.full_diagnostics(&config, AssistResolveStrategy::All, FileId::from_raw(file.0)).map_err(
        |e| format!("{e:?}"),
    )
}

/// The fields of a `Diagnostic`; it has no fixes where the engine gives
/// none.
#[verifier::external_body]
pub(crate) fn diagnostic_fields(diagnostic: &Diagnostic) -> (fields: RawDiagnostic)
    ensures
        fields.start <= fields.end,
{
    RawDiagnostic {
        message: diagnostic.message.clone(),
        severity: format!("{:?}", diagnostic.severity),
        code: diagnostic.code.as_str().to_string(),
        start: diagnostic.range.range.start().into(),
        end: diagnostic.range.range.end().into(),
        fixes: diagnostic.fixes.clone().unwrap_or_default(),
    }
}

/// `Analysis::file_structure` of one file, locals left out.
#[verifier::external_body]
pub(crate) fn engine_file_structure(analysis: &Analysis, file: FileHandle) -> (found: Result<
    Vec<StructureNode>,
    String,
>)
    requires
        file.0 < MAX_FILES,
        holds(analysis_texts(*analysis), file),
{
    let config = FileStructureConfig { exclude_locals: true };
    analysis.file_structure(&config, FileId::from_raw(file.0)).map_err(|e| format!("{e:?}"))
}

/// The fields of a `StructureNode`; its kind is the name of the engine's
/// kind of node, or of the kind of symbol where it stands for a symbol.
#[verifier::external_body]
pub(crate) fn structure_node_fields(node: &StructureNode) -> (fields: RawNode)
    ensures
        fields.start <= fields.end,
{
    RawNode {
        parent: node.parent,
        label: node.label.clone(),
        kind: match node.kind {
            StructureNodeKind::SymbolKind(kind) => format!("{kind:?}"),
            other => format!("{other:?}"),
        },
        detail: node.detail.clone(),
        start: node.node_range.start().into(),
        end: node.node_range.end().into(),
        deprecated: node.deprecated,
    }
}

/// `Analysis::symbol_search`: at most `limit` symbols whose names match
/// `query`.
#[verifier::external_body]
pub(crate) fn engine_symbol_search(analysis: &Analysis, query: &str, limit: usize) -> (found: Result<
    Vec<NavigationTarget>,
    String,
>) {
    analysis.symbol_search(Query::new(query.to_string()), limit).map_err(|e| format!("{e:?}"))
}

/// `Analysis::incoming_calls` at one offset, tests included.
#[verifier::external_body]
pub(crate) fn engine_incoming_calls(analysis: &Analysis, file: FileHandle, offset: u32) -> (found: Result<
    Option<Vec<CallItem>>,
    String,
>)
    requires
        file.0 < MAX_FILES,
        in_text(analysis_texts(*analysis), file, offset),
{
    let config = CallHierarchyConfig { exclude_tests: false, minicore: MiniCore::default() };
    let position = FilePosition { file_id: FileId::from_raw(file.0), offset: offset.into() };
    analysis.incoming_calls(&config, position).map_err(|e| format!("{e:?}"))
}

/// `Analysis::outgoing_calls` at one offset, tests included.
#[verifier::external_body]
pub(crate) fn engine_outgoing_calls(analysis: &Analysis, file: FileHandle, offset: u32) -> (found: Result<
    Option<Vec<CallItem>>,
    String,
>)
    requires
        file.0 < MAX_FILES,
        in_text(analysis_texts(*analysis), file, offset),
{
    let config = CallHierarchyConfig { exclude_tests: false, minicore: MiniCore::default() };
    let position = FilePosition { file_id: FileId::from_raw(file.0), offset: offset.into() };
    analysis.outgoing_calls(&config, position).map_err(|e| format!("{e:?}"))
}

/// `CallItem::target`: the function that a call leads to or comes from.
#[verifier::external_body]
pub(crate) fn call_item_target(item: &CallItem) -> (target: NavigationTarget) {
    item.target.clone()
}

/// `Analysis::expand_macro` at one offset.
#[verifier::external_body]
pub(crate) fn engine_expand_macro(analysis: &Analysis, file: FileHandle, offset: u32) -> (found: Result<
    Option<MacroExpansion>,
    String,
>)
    requires
        file.0 < MAX_FILES,
        in_text(analysis_texts(*analysis), file, offset),
{
    let position = FilePosition { file_id: FileId::from_raw(file.0), offset: offset.into() };
    analysis.expand_macro(position).map_err(|e| format!("{e:?}")).map(
        |found| found.map(|m| MacroExpansion { name: m.name, expansion: m.expansion }),
    )
}

/// `Analysis::signature_help` at one offset.
#[verifier::external_body]
pub(crate) fn engine_signature_help(analysis: &Analysis, file: FileHandle, offset: u32) -> (found: Result<
    Option<SignatureInfo>,
    String,
>)
    requires
        file.0 < MAX_FILES,
        in_text(analysis_texts(*analysis), file, offset),
{
    let position = FilePosition { file_id: FileId::from_raw(file.0), offset: offset.into() };
    analysis.signature_help(position).map_err(|e| format!("{e:?}")).map(
        |found|
            found.map(
                |s|
                    SignatureInfo {
                        parameters: s.parameter_labels().map(|p| p.to_string()).collect(),
                        documentation: s.doc.as_ref().map(|d| d.as_str().to_string()),
                        active_parameter: s.active_parameter,
                        signature: s.signature,
                    },
            ),
    )
}

/// An `InlayHintsConfig`: hints for types and parameter names, and for
/// nothing else.
#[verifier::external_body]
pub(crate) fn inlay_hints_config() -> (config: InlayHintsConfig<'static>) {
    InlayHintsConfig {
        render_colons: false, type_hints: true, sized_bound: false,
        discriminant_hints: ra_ap_ide::DiscriminantHints::Never, parameter_hints: true,
        parameter_hints_for_missing_arguments: false, chaining_hints: false,
        generic_parameter_hints: ra_ap_ide::GenericParameterHints { type_hints: false, lifetime_hints: false, const_hints: false },
        adjustment_hints: ra_ap_ide::AdjustmentHints::Never, adjustment_hints_disable_reborrows: false,
        adjustment_hints_mode: ra_ap_ide::AdjustmentHintsMode::Prefix, adjustment_hints_hide_outside_unsafe: false,
        closure_return_type_hints: ra_ap_ide::ClosureReturnTypeHints::Never, closure_capture_hints: false,
        binding_mode_hints: false, implicit_drop_hints: false, implied_dyn_trait_hints: false,
        lifetime_elision_hints: ra_ap_ide::LifetimeElisionHints::Never, param_names_for_lifetime_elision_hints: false,
        hide_inferred_type_hints: false, hide_named_constructor_hints: false, hide_closure_initialization_hints: false,
        hide_closure_parameter_hints: false, range_exclusive_hints: false, closure_style: ra_ap_hir::ClosureStyle::ImplFn,
        max_length: None, closing_brace_hints_min_lines: None, fields_to_resolve: InlayFieldsToResolve::empty(), minicore: MiniCore::default(),
    }
}

/// `Analysis::inlay_hints` of a whole file.
#[verifier::external_body]
pub(crate) fn engine_inlay_hints(analysis: &Analysis, config: &InlayHintsConfig<'static>, file: FileHandle) -> (found:
    Result<Vec<InlayHint>, String>)
    requires
        file.0 < MAX_FILES,
        holds(analysis_texts(*analysis), file),
{
    analysis.inlay_hints(config, FileId::from_raw(file.0), None).map_err(|e| format!("{e:?}"))
}

/// The fields of an `InlayHint`.
#[verifier::external_body]
pub(crate) fn inlay_hint_fields(hint: &InlayHint) -> (fields: RawHint)
    ensures
        fields.start <= fields.end,
{
    RawHint {
        parts: hint.label.parts.iter().map(|p| p.text.clone()).collect(),
        after: match hint.position {
            InlayHintPosition::After => true,
            InlayHintPosition::Before => false,
        },
        start: hint.range.start().into(),
        end: hint.range.end().into(),
    }
}

/// The insertions that a text edit in the making holds, each with its
/// offset and its text, ordered by offset; insertions at one offset stand
/// in the order in which they were added.
pub uninterp spec fn builder_insertions(builder: TextEditBuilder) -> Seq<(int, Seq<char>)>;

/// `text` with `insertions` made, which are ordered by offset, as
/// `TextEdit::apply` makes them: each text stands at its offset in `text`,
/// and the texts for one offset stand one behind the other.
pub uninterp spec fn with_insertions(text: Seq<char>, insertions: Seq<(int, Seq<char>)>) -> Seq<
    char,
>;

/// `insertions` with `added` put behind every insertion whose offset is at
/// most its own.
pub open spec fn placed_behind(insertions: Seq<(int, Seq<char>)>, added: (int, Seq<char>)) -> Seq<
    (int, Seq<char>),
>
    decreases insertions.len(),
{
    if insertions.len() == 0 || insertions.last().0 <= added.0 {
        insertions.push(added)
    } else {
        placed_behind(insertions.drop_last(), added).push(insertions.last())
    }
}

/// Number of bytes that `insertions` add to a text.
pub open spec fn inserted_len(insertions: Seq<(int, Seq<char>)>) -> int
    decreases insertions.len(),
{
    if insertions.len() == 0 {
        0
    } else {
        inserted_len(insertions.drop_last()) + encode_utf8(insertions.last().1).len()
    }
}

/// The insertions can be made in `text`: each offset lies in the text and
/// cuts no character, and the text stays shorter than `u32::MAX` bytes.
pub open spec fn insertions_fit(text: Seq<char>, insertions: Seq<(int, Seq<char>)>) -> bool {
    &&& forall|i: int| 0 <= i < insertions.len() ==> fits(text, #[trigger] insertions[i])
    &&& encode_utf8(text).len() + inserted_len(insertions) < u32::MAX
}

/// The offset of `insertion` lies in `text` and cuts no character.
pub open spec fn fits(text: Seq<char>, insertion: (int, Seq<char>)) -> bool {
    0 <= insertion.0 <= encode_utf8(text).len() && is_char_boundary(
        encode_utf8(text),
        insertion.0,
    )
}

/// The first `n` of some insertions add no more bytes than all of them.
pub proof fn lemma_inserted_len_grows(insertions: Seq<(int, Seq<char>)>, n: int)
    requires
        0 <= n <= insertions.len(),
    ensures
        0 <= inserted_len(insertions.take(n)) <= inserted_len(insertions),
    decreases insertions.len(),
{
    if n == insertions.len() {
        assert(insertions.take(n) =~= insertions);
        if n > 0 {
            lemma_inserted_len_grows(insertions.drop_last(), n - 1);
            assert(insertions.drop_last().take(n - 1) =~= insertions.drop_last());
        }
    } else {
        lemma_inserted_len_grows(insertions.drop_last(), n);
        assert(insertions.drop_last().take(n) =~= insertions.take(n));
    }
}

/// Insertions that fit a text still do with one more that fits, and
/// together they add the bytes of both.
pub proof fn lemma_placed_behind(text: Seq<char>, insertions: Seq<(int, Seq<char>)>, added: (int, Seq<char>))
    requires
        forall|i: int| 0 <= i < insertions.len() ==> fits(text, #[trigger] insertions[i]),
        fits(text, added),
    ensures
        placed_behind(insertions, added).len() == insertions.len() + 1,
        forall|i: int|
            0 <= i < placed_behind(insertions, added).len() ==> fits(
                text,
                #[trigger] placed_behind(insertions, added)[i],
            ),
        inserted_len(placed_behind(insertions, added)) == inserted_len(insertions) + encode_utf8(
            added.1,
        ).len(),
    decreases insertions.len(),
{
    if insertions.len() == 0 || insertions.last().0 <= added.0 {
        assert(insertions.push(added).drop_last() =~= insertions);
    } else {
        let rest = insertions.drop_last();
        lemma_placed_behind(text, rest, added);
        let placed = placed_behind(rest, added).push(insertions.last());
        assert(placed.drop_last() =~= placed_behind(rest, added));
        assert(fits(text, insertions[insertions.len() - 1]));
    }
}

/// `TextEditBuilder::default`: a text edit in the making that holds nothing
/// yet.
#[verifier::external_body]
pub(crate) fn builder_new() -> (builder: TextEditBuilder)
    ensures
        builder_insertions(builder).len() == 0,
{
    TextEditBuilder::default()
}

/// `TextEditBuilder::insert`: adds the insertion of `text` at `offset`. The
/// builder keeps up to 16 edits sorted by their ranges, with a sort that
/// leaves equal ones in their order, and `finish` sorts them all in the
/// same way; so ordered by offset, the new insertion stands behind every
/// one whose offset is at most its own. The builder asserts that its edits
/// do not overlap, which insertions never do.
#[verifier::external_body]
pub(crate) fn builder_insert(builder: &mut TextEditBuilder, offset: u32, text: String)
    ensures
        builder_insertions(*final(builder)) == placed_behind(
            builder_insertions(*old(builder)),
            (offset as int, text@),
        ),
{
    builder.insert(offset.into(), text)
}

/// `TextEditBuilder::finish` and `TextEdit::apply`: `content` with the
/// insertions of the builder made. `apply` replaces ranges of the string
/// and adds up lengths in 32 bits, and stops the program where an offset
/// lies outside the text or cuts a character, or where the sum overflows.
#[verifier::external_body]
pub(crate) fn builder_apply(builder: TextEditBuilder, content: String) -> (text: String)
    requires
        insertions_fit(content@, builder_insertions(builder)),
    ensures
        text@ == with_insertions(content@, builder_insertions(builder)),
{
    let mut text = content;
    builder.finish().apply(&mut text);
    text
}

/// `SsrRule::from_str`: a rule `pattern ==>> template`, or why the text is
/// none.
#[verifier::external_body]
pub(crate) fn ssr_rule(rule: &str) -> (parsed: Result<SsrRule, String>) {
    rule.parse::<SsrRule>().map_err(|e| e.to_string())
}

/// `SsrPattern::from_str`: a pattern to search for, or why the text is none.
#[verifier::external_body]
pub(crate) fn ssr_pattern(pattern: &str) -> (parsed: Result<SsrPattern, String>) {
    pattern.parse::<SsrPattern>().map_err(|e| e.to_string())
}

/// `MatchFinder::in_context`: a search that resolves names as at the start
/// of `file`, in the whole workspace. For this call and the calls on the
/// search the engine's database is attached, as the engine does for its own
/// queries.
#[verifier::external_body]
pub(crate) fn finder_in_context<'a>(host: &'a AnalysisHost, file: FileHandle) -> (finder: Result<
    MatchFinder<'a>,
    String,
>)
    requires
        file.0 < MAX_FILES,
        holds(host_texts(*host), file),
{
    let position = FilePosition { file_id: FileId::from_raw(file.0), offset: 0.into() };
    let db = host.raw_database();
    ra_ap_hir::attach_db(db, || MatchFinder::in_context(db, position, vec![])).map_err(
        |e| e.to_string(),
    )
}

/// `MatchFinder::at_first_file`: a search that resolves names as at the
/// start of the first file of the workspace.
#[verifier::external_body]
pub(crate) fn finder_at_first_file<'a>(host: &'a AnalysisHost) -> (finder: Result<
    MatchFinder<'a>,
    String,
>) {
    let db = host.raw_database();
    ra_ap_hir::attach_db(db, || MatchFinder::at_first_file(db)).map_err(|e| e.to_string())
}

/// `MatchFinder::add_rule`.
#[verifier::external_body]
pub(crate) fn finder_add_rule(host: &AnalysisHost, finder: &mut MatchFinder<'_>, rule: SsrRule) -> (added:
    Result<(), String>) {
    ra_ap_hir::attach_db(host.raw_database(), || finder.add_rule(rule)).map_err(|e| e.to_string())
}

/// `MatchFinder::add_search_pattern`.
#[verifier::external_body]
pub(crate) fn finder_add_search_pattern(host: &AnalysisHost, finder: &mut MatchFinder<'_>, pattern: SsrPattern) -> (added:
    Result<(), String>) {
    ra_ap_hir::attach_db(host.raw_database(), || finder.add_search_pattern(pattern)).map_err(
        |e| e.to_string(),
    )
}

/// `MatchFinder::matches`: the text of each match.
#[verifier::external_body]
pub(crate) fn finder_matched_texts(host: &AnalysisHost, finder: &MatchFinder<'_>) -> (texts: Vec<
    String,
>) {
    let found = ra_ap_hir::attach_db(host.raw_database(), || finder.matches());
    found.matches.iter().map(|m| m.matched_text()).collect()
}

/// `MatchFinder::edits`: the replacements, file by file, in the order in
/// which the engine's map gives the files. A range never ends before it
/// starts.
#[verifier::external_body]
pub(crate) fn finder_edits(host: &AnalysisHost, finder: &MatchFinder<'_>) -> (files: Vec<FileEdits>)
    ensures
        forall|i: int| 0 <= i < files@.len() ==> (#[trigger] files@[i]).file.0 < MAX_FILES,
        forall|i: int, j: int|
            0 <= i < files@.len() && 0 <= j < files@[i].edits@.len() ==> (#[trigger] files@[i].edits@[j]).start
                <= files@[i].edits@[j].end,
{
    let found = ra_ap_hir::attach_db(host.raw_database(), || finder.edits());
    found.iter().map(
        |(file, edit)|
            FileEdits {
                file: FileHandle(file.index()),
                edits: edit.iter().map(
                    |i|
                        ByteEdit {
                            start: i.delete.start().into(),
                            end: i.delete.end().into(),
                            insert: i.insert.clone(),
                        },
                ).collect(),
            },
    ).collect()
}

} // verus!
