use librustbelt::analyzer::{
    CallAnswer, CursorQuery, DefinitionAnswer, FileAnswer, GotoOutcome, HitAnswer, PlaceAnswer,
    ResolvedAssist, RustAnalyzerish,
};
use librustbelt::engine::{FileRanges, NavTarget, RawMoniker};
use librustbelt::position::line_index_of;
use librustbelt::changes::{apply_file_change, ByteEdit, FileEdits};
use librustbelt::cursor::CursorCoordinates;
use librustbelt::error::QueryError;
use librustbelt::tracker::{FileHandle, FileWatcher};
use ra_ap_hir::{CfgOptions, ChangeWithProcMacros};
use ra_ap_ide::{
    AnalysisHost, CrateGraphBuilder, Edition, FileId, FilePosition, GotoDefinitionConfig,
    SourceRoot,
};
use ra_ap_ide_db::MiniCore;
use ra_ap_ide_db::base_db::{CrateOrigin, CrateWorkspaceData, Env, FileSet, VfsPath};
use ra_ap_vfs::AbsPathBuf;

/// A session on a workspace of one crate whose files hold the given texts;
/// the first file is the root of the crate.
fn session(files: &[(&str, &str)]) -> RustAnalyzerish {
    let mut watcher = FileWatcher::new();
    let mut file_set = FileSet::default();
    let mut change = ChangeWithProcMacros::default();
    for (path, text) in files {
        let handle = watcher.get_or_create_handle(path);
        let id = FileId::from_raw(handle.0);
        file_set.insert(id, VfsPath::new_virtual_path(path.to_string()));
        change.change_file(id, Some(text.to_string()));
    }
    change.set_roots(vec![SourceRoot::new_local(file_set)]);
    let mut graph = CrateGraphBuilder::default();
    graph.add_crate_root(
        FileId::from_raw(0),
        Edition::CURRENT,
        None,
        None,
        CfgOptions::default(),
        None,
        Env::default(),
        CrateOrigin::Local { repo: None, name: None },
        Vec::new(),
        false,
        AbsPathBuf::try_from("/").unwrap().into(),
        CrateWorkspaceData { target: Err("no layout".into()), toolchain: None }.into(),
    );
    change.set_crate_graph(graph);
    let mut host = AnalysisHost::default();
    host.apply_change(change);
    RustAnalyzerish::new(host, watcher)
}

fn cursor(path: &str, line: u32, column: u32, symbol: Option<&str>) -> CursorCoordinates {
    CursorCoordinates {
        file_path: path.to_string(),
        line,
        column,
        symbol: symbol.map(|s| s.to_string()),
    }
}

#[test]
fn rename_local_variable_end_to_end() {
    let text = "fn main(){let x=1;}";
    let mut analyzer = session(&[("/a.rs", text)]);
    let renamed = analyzer
        .get_rename_info(&cursor("/a.rs", 1, 15, None), "y", None)
        .expect("the rename is answered")
        .expect("the rename is possible");
    assert_eq!(renamed.file_changes.len(), 1);
    let change = &renamed.file_changes[0];
    assert_eq!(change.file_path, "/a.rs");
    assert_eq!(change.edits.len(), 1);
    let edit = &change.edits[0];
    assert_eq!(edit.new_text, "y");
    assert_eq!((edit.line, edit.column, edit.end_line, edit.end_column), (1, 15, 1, 16));
    let written = apply_file_change(text, change).expect("the edit applies");
    assert_eq!(written, b"fn main(){let y=1;}".to_vec());
}

#[test]
fn query_with_zero_column_is_invalid_coordinate() {
    let mut analyzer = session(&[("/a.rs", "fn main(){let x=1;}")]);
    let hint = analyzer.get_type_hint(&cursor("/a.rs", 1, 0, None), None);
    assert!(matches!(hint, Err(QueryError::InvalidCoordinate)));
    let hint = analyzer.get_type_hint(&cursor("/a.rs", 0, 1, None), None);
    assert!(matches!(hint, Err(QueryError::InvalidCoordinate)));
    let hint = analyzer.get_type_hint(&cursor("/a.rs", 0, 0, Some("main")), None);
    assert!(matches!(hint, Err(QueryError::InvalidCoordinate)));
}

#[test]
fn unknown_file_is_reported_before_a_zero_coordinate() {
    let mut analyzer = session(&[("/a.rs", "fn main(){let x=1;}")]);
    let hint = analyzer.get_type_hint(&cursor("/missing.rs", 0, 1, None), None);
    assert!(matches!(hint, Err(QueryError::UnknownFile)));
    let found = analyzer.find_references(&cursor("/missing.rs", 1, 0, None), None);
    assert!(matches!(found, Err(QueryError::UnknownFile)));
}

#[test]
fn query_with_zero_coordinate_still_hands_the_changes_on() {
    let mut analyzer = session(&[("/a.rs", "fn main(){let x=1;}")]);
    analyzer.queue_change("/a.rs", Some("fn main(){let x=1u16;}".to_string()));
    let hint = analyzer.get_type_hint(&cursor("/a.rs", 0, 1, None), None);
    assert!(matches!(hint, Err(QueryError::InvalidCoordinate)));
    assert_eq!(analyzer.file_watcher().pending_count(), 0);
    let hint = analyzer
        .get_type_hint(&cursor("/a.rs", 1, 15, None), None)
        .unwrap()
        .expect("the engine knows the type");
    assert!(hint.symbol.contains("u16"));
    analyzer.queue_change("/elsewhere.rs", Some(String::new()));
    let hint = analyzer.get_type_hint(&cursor("/a.rs", 1, 0, None), None);
    assert!(matches!(hint, Err(QueryError::UnknownFile)));
    assert_eq!(analyzer.file_watcher().pending_count(), 0);
}

#[test]
fn query_in_unknown_file_is_unknown_file() {
    let mut analyzer = session(&[("/a.rs", "fn main(){let x=1;}")]);
    let hint = analyzer.get_type_hint(&cursor("/b.rs", 1, 1, None), None);
    assert!(matches!(hint, Err(QueryError::UnknownFile)));
}

#[test]
fn query_past_end_of_line_is_out_of_bounds() {
    let mut analyzer = session(&[("/a.rs", "fn main(){let x=1;}\n")]);
    let hint = analyzer.get_type_hint(&cursor("/a.rs", 1, 21, None), None);
    assert!(matches!(hint, Err(QueryError::OutOfBounds)));
    let hint = analyzer.get_type_hint(&cursor("/a.rs", 3, 1, None), None);
    assert!(matches!(hint, Err(QueryError::OutOfBounds)));
}

#[test]
fn type_hint_reports_resolved_cursor() {
    let text = "fn main(){let x=1u8;}";
    let mut analyzer = session(&[("/a.rs", text)]);
    let hint = analyzer
        .get_type_hint(&cursor("/a.rs", 1, 12, Some("x")), Some(text))
        .expect("the hover is answered")
        .expect("the variable has a type");
    assert_eq!((hint.line, hint.column), (1, 15));
    assert_eq!(hint.file_path, "/a.rs");
    assert!(hint.symbol.contains("u8"), "{}", hint.symbol);
}

#[test]
fn queued_change_reaches_engine_before_query() {
    let mut analyzer = session(&[("/a.rs", "fn main(){let x=1u8;}")]);
    analyzer.queue_change("/a.rs", Some("fn main(){let x=1u16;}".to_string()));
    let hint = analyzer
        .get_type_hint(&cursor("/a.rs", 1, 15, None), None)
        .expect("the hover is answered")
        .expect("the variable has a type");
    assert!(hint.symbol.contains("u16"), "{}", hint.symbol);
    assert_eq!(analyzer.file_watcher().pending_count(), 0);
}

#[test]
fn queued_change_to_unknown_path_is_unknown_file() {
    let mut analyzer = session(&[("/a.rs", "fn main(){}")]);
    analyzer.queue_change("/elsewhere.rs", Some(String::new()));
    let hint = analyzer.get_type_hint(&cursor("/a.rs", 1, 4, None), None);
    assert!(matches!(hint, Err(QueryError::UnknownFile)));
    assert_eq!(analyzer.file_watcher().pending_count(), 0);
}

const SHAPES: &str = "struct Point { x: i32 }\n\nfn origin() -> Point {\n    Point { x: 0 }\n}\n\nfn main() {\n    let p = origin();\n    let _ = p.x;\n}\n";

/// Asks the engine for the definitions at the cursor of `query`.
fn goto(query: &CursorQuery) -> GotoOutcome {
    let position =
        FilePosition { file_id: FileId::from_raw(query.file().0), offset: query.offset().into() };
    let config = GotoDefinitionConfig { minicore: MiniCore::default() };
    match query.analysis().goto_definition(position, &config) {
        Err(e) => GotoOutcome::Failed(format!("{e:?}")),
        Ok(None) => GotoOutcome::NoResult,
        Ok(Some(found)) => GotoOutcome::Targets(found.info),
    }
}

#[test]
fn definition_of_a_called_function() {
    let mut analyzer = session(&[("/lib.rs", SHAPES)]);
    let query = analyzer.setup_cursor_analysis(&cursor("/lib.rs", 8, 13, None), None).unwrap();
    assert_eq!(query.offset() as usize, SHAPES.find("origin();").unwrap());
    let outcome = goto(&query);
    let found = RustAnalyzerish::get_definition(&query, outcome).unwrap().unwrap();
    assert_eq!(found.len(), 1);
    let definition = &found[0];
    assert_eq!(definition.name, "origin");
    assert_eq!(definition.file_path, "/lib.rs");
    assert_eq!((definition.line, definition.column), (3, 4));
    assert_eq!((definition.end_line, definition.end_column), (3, 10));
    assert_eq!(definition.content, "fn origin() -> Point {\n    Point { x: 0 }\n}");
    assert!(!definition.module.is_empty());
}

#[test]
fn engine_panic_during_goto_definition_is_no_result() {
    let mut analyzer = session(&[("/lib.rs", SHAPES)]);
    let query = analyzer.setup_cursor_analysis(&cursor("/lib.rs", 1, 1, None), None).unwrap();
    let found = RustAnalyzerish::get_definition(&query, GotoOutcome::Panicked);
    assert!(matches!(found, Ok(None)));
    let found = RustAnalyzerish::get_definition(&query, GotoOutcome::NoResult);
    assert!(matches!(found, Ok(None)));
    let found = RustAnalyzerish::get_definition(&query, GotoOutcome::Failed("cancelled".to_string()));
    assert!(matches!(found, Err(QueryError::EngineQueryFailed(detail)) if detail == "cancelled"));
}

#[test]
fn completions_after_a_dot() {
    let text = "struct S;\nimpl S { fn go(&self) {} }\nfn main() { let s = S; s. }\n";
    let mut analyzer = session(&[("/lib.rs", text)]);
    let column = text.lines().nth(2).unwrap().find("s. ").unwrap() as u32 + 3;
    let found = analyzer
        .get_completions(&cursor("/lib.rs", 3, column, None), None)
        .unwrap()
        .expect("completions after a dot");
    let method = found.iter().find(|c| c.name.starts_with("go")).expect("the method is offered");
    assert!(method.kind.is_some());
    assert!(!method.deprecated);
}

#[test]
fn references_are_listed_declaration_first_by_position() {
    let mut analyzer = session(&[("/lib.rs", SHAPES)]);
    let found = analyzer
        .find_references(&cursor("/lib.rs", 3, 4, None), None)
        .unwrap()
        .expect("the function has references");
    let places: Vec<(u32, u32, bool)> =
        found.iter().map(|r| (r.line, r.column, r.is_definition)).collect();
    assert_eq!(places, vec![(3, 4, true), (8, 13, false)]);
    assert_eq!(found[0].name, "origin");
    assert_eq!(found[1].name, "origin");
    assert_eq!(found[0].content, "fn origin() -> Point {");
    assert_eq!(found[1].content, "    let p = origin();");
    assert_eq!((found[1].end_line, found[1].end_column), (8, 19));
    assert!(found.iter().all(|r| r.file_path == "/lib.rs"));
}

#[test]
fn references_at_white_space_are_none() {
    let mut analyzer = session(&[("/lib.rs", SHAPES)]);
    let found = analyzer.find_references(&cursor("/lib.rs", 2, 1, None), None).unwrap();
    assert!(found.is_none());
}

#[test]
fn assists_are_listed_without_edits_and_applied_by_id() {
    let text = "fn main() {\n    let x = 1 + 2;\n    let _ = x;\n}\n";
    let mut analyzer = session(&[("/lib.rs", text)]);
    let at = cursor("/lib.rs", 2, 9, None);
    let offered = analyzer.get_assists(&at, None).unwrap().expect("assists on a variable");
    assert!(!offered.is_empty());
    assert!(offered.iter().all(|a| a.source_change.is_none()));
    assert!(offered.iter().all(|a| !a.id.is_empty() && !a.kind.is_empty()));
    let inline = offered.iter().find(|a| a.id == "inline_local_variable").expect("inline offered");
    let change = analyzer
        .apply_assist(&at, &inline.id, None)
        .unwrap()
        .expect("the assist is still on offer");
    assert_eq!(change.file_changes.len(), 1);
    assert_eq!(change.file_changes[0].file_path, "/lib.rs");
    let written = apply_file_change(text, &change.file_changes[0]).unwrap();
    let written = String::from_utf8(written).unwrap();
    assert!(written.contains("let _ = 1 + 2;") || written.contains("let _ = (1 + 2);"), "{written}");
    assert!(!written.contains("let x"));
    let missing = analyzer.apply_assist(&at, "no_such_assist", None).unwrap();
    assert!(missing.is_none());
}

#[test]
fn diagnostics_of_a_file_with_a_syntax_error() {
    let text = "fn main() {\n    let = ;\n}\n";
    let mut analyzer = session(&[("/lib.rs", text)]);
    let found = analyzer.get_diagnostics("/lib.rs").unwrap();
    assert!(!found.is_empty());
    for diagnostic in &found {
        assert_eq!(diagnostic.file_path, "/lib.rs");
        assert!(diagnostic.line >= 1 && diagnostic.column >= 1);
        assert!((diagnostic.line, diagnostic.column) <= (diagnostic.end_line, diagnostic.end_column));
        assert!(!diagnostic.message.is_empty());
    }
    assert!(found.iter().any(|d| d.line == 2));
    assert!(matches!(analyzer.get_diagnostics("/other.rs"), Err(QueryError::UnknownFile)));
}

#[test]
fn diagnostics_of_a_clean_file_are_none() {
    let mut analyzer = session(&[("/lib.rs", "fn main() {}\n")]);
    assert!(analyzer.get_diagnostics("/lib.rs").unwrap().is_empty());
}

#[test]
fn outline_of_a_file() {
    let mut analyzer = session(&[("/lib.rs", SHAPES)]);
    let outline = analyzer.get_file_outline("/lib.rs").unwrap();
    let items: Vec<(&str, &str, u32, u32)> =
        outline.iter().map(|i| (i.name.as_str(), i.kind.as_str(), i.line, i.end_line)).collect();
    assert!(items.contains(&("Point", "Struct", 1, 1)), "{items:?}");
    assert!(items.contains(&("origin", "Function", 3, 5)), "{items:?}");
    assert!(items.contains(&("main", "Function", 7, 10)), "{items:?}");
    let field = outline.iter().find(|i| i.name == "x").expect("the field is listed");
    assert_eq!(outline[field.parent_idx.unwrap()].name, "Point");
    assert!(matches!(analyzer.get_file_outline("/other.rs"), Err(QueryError::UnknownFile)));
}

#[test]
fn search_for_symbols_by_name() {
    let mut analyzer = session(&[("/lib.rs", SHAPES)]);
    let found = analyzer.search_symbols("origin", 10).unwrap();
    let hit = found.iter().find(|s| s.name == "origin").expect("the function is found");
    assert_eq!(hit.file_path, "/lib.rs");
    assert_eq!((hit.line, hit.column), (3, 4));
    assert_eq!(hit.kind.as_deref(), Some("Function"));
    assert!(analyzer.search_symbols("no_such_symbol_anywhere", 10).unwrap().is_empty());
    assert!(analyzer.search_symbols("origin", 0).unwrap().is_empty());
}

#[test]
fn expansion_of_a_macro_call() {
    let text = "macro_rules! two { () => { 1 + 1 } }\nfn main() { let _ = two!(); }\n";
    let mut analyzer = session(&[("/lib.rs", text)]);
    let expansion = analyzer
        .expand_macro(&cursor("/lib.rs", 2, 1, Some("two!")), Some(text))
        .unwrap()
        .expect("the call expands");
    assert_eq!(expansion.name, "two!");
    assert_eq!(expansion.expansion.replace(' ', ""), "1+1");
    let none = analyzer.expand_macro(&cursor("/lib.rs", 2, 1, None), None).unwrap();
    assert!(none.is_none());
}

#[test]
fn signature_of_a_call() {
    let text = "fn add(a: i32, b: i32) -> i32 { a + b }\nfn main() { add(1, 2); }\n";
    let mut analyzer = session(&[("/lib.rs", text)]);
    let help = analyzer
        .get_signature_help(&cursor("/lib.rs", 2, 20, None), None)
        .unwrap()
        .expect("the cursor is in a call");
    assert_eq!(help.signature, "fn add(a: i32, b: i32) -> i32");
    assert_eq!(help.parameters, vec!["a: i32".to_string(), "b: i32".to_string()]);
    assert_eq!(help.active_parameter, Some(1));
    let none = analyzer.get_signature_help(&cursor("/lib.rs", 1, 1, None), None).unwrap();
    assert!(none.is_none());
}

const CALLS: &str = "fn foo(a: i32) {}\nfn bar(a: i32) {}\nfn main() { foo(1); foo(2); }\n";

#[test]
fn structural_replace_gives_matches_and_edits() {
    let mut analyzer = session(&[("/lib.rs", CALLS)]);
    let outcome = analyzer.ssr("foo($a) ==>> bar($a)", Some("/lib.rs"), false).unwrap();
    assert!(!outcome.dry_run);
    let texts: Vec<(&str, Option<&str>, u32, u32)> = outcome
        .matches
        .iter()
        .map(|m| (m.matched_text.as_str(), m.replacement.as_deref(), m.line, m.column))
        .collect();
    assert_eq!(texts, vec![("foo(1)", Some("bar(1)"), 3, 13), ("foo(2)", Some("bar(2)"), 3, 21)]);
    let changes = outcome.file_changes.expect("edits unless dry run");
    assert_eq!(changes.len(), 1);
    assert_eq!(changes[0].file_path, "/lib.rs");
    let written = apply_file_change(CALLS, &changes[0]).unwrap();
    assert_eq!(
        String::from_utf8(written).unwrap(),
        "fn foo(a: i32) {}\nfn bar(a: i32) {}\nfn main() { bar(1); bar(2); }\n"
    );
}

#[test]
fn structural_replace_dry_run_gives_the_edits_unwritten() {
    let mut analyzer = session(&[("/lib.rs", CALLS)]);
    let outcome = analyzer.ssr("foo($a) ==>> bar($a)", None, true).unwrap();
    assert!(outcome.dry_run);
    assert_eq!(outcome.matches.len(), 2);
    let changes = outcome.file_changes.expect("the edits come back in a dry run too");
    assert_eq!(changes.len(), 1);
    assert_eq!(changes[0].file_path, "/lib.rs");
    assert_eq!(changes[0].edits.len(), 2);
    let written = apply_file_change(CALLS, &changes[0]).unwrap();
    assert_eq!(
        String::from_utf8(written).unwrap(),
        "fn foo(a: i32) {}\nfn bar(a: i32) {}\nfn main() { bar(1); bar(2); }\n"
    );
}

#[test]
fn outcome_of_a_code_action_by_identifier() {
    let mut probe = session(&[("/lib.rs", CALLS)]);
    let query = probe.setup_cursor_analysis(&cursor("/lib.rs", 1, 1, None), None).unwrap();
    let edit = |start: u32, end: u32, text: &str| ByteEdit { start, end, insert: text.to_string() };
    let action = |id: &str, files: Option<Vec<FileEdits>>| ResolvedAssist {
        id: id.to_string(),
        files,
        is_snippet: false,
    };
    let actions = vec![
        action("bare", None),
        action("rename", Some(vec![FileEdits { file: FileHandle(0), edits: vec![edit(3, 6, "baz")] }])),
        action("rename", Some(vec![FileEdits { file: FileHandle(0), edits: vec![edit(0, 2, "")] }])),
        action("stray", Some(vec![FileEdits { file: FileHandle(7), edits: vec![] }])),
        action("outside", Some(vec![FileEdits { file: FileHandle(0), edits: vec![edit(900, 901, "")] }])),
    ];
    let none = query.analyzer().assist_outcome(query.analysis(), &actions, "absent").unwrap();
    assert!(none.is_none());
    let bare = query.analyzer().assist_outcome(query.analysis(), &actions, "bare");
    assert!(matches!(bare, Err(QueryError::EngineQueryFailed(_))));
    let first = query
        .analyzer()
        .assist_outcome(query.analysis(), &actions, "rename")
        .unwrap()
        .expect("the first action of that name has edits");
    assert_eq!(first.file_changes.len(), 1);
    assert_eq!(first.file_changes[0].file_path, "/lib.rs");
    let only = &first.file_changes[0].edits[0];
    assert_eq!((only.line, only.column, only.end_line, only.end_column), (1, 4, 1, 7));
    assert_eq!(only.new_text, "baz");
    let stray = query.analyzer().assist_outcome(query.analysis(), &actions, "stray");
    assert!(matches!(stray, Err(QueryError::UnknownFile)));
    let outside = query.analyzer().assist_outcome(query.analysis(), &actions, "outside");
    assert!(matches!(outside, Err(QueryError::OutOfBounds)));
}

#[test]
fn structural_replace_without_match_gives_nothing() {
    let mut analyzer = session(&[("/lib.rs", CALLS)]);
    let outcome = analyzer.ssr("bar($a) ==>> foo($a)", None, false).unwrap();
    assert!(outcome.matches.is_empty());
    assert_eq!(outcome.file_changes.map(|c| c.len()), Some(0));
}

#[test]
fn structural_rule_that_does_not_parse_is_engine_failure() {
    let mut analyzer = session(&[("/lib.rs", CALLS)]);
    let outcome = analyzer.ssr("foo($a) ==>> bar($b)", None, false);
    assert!(matches!(outcome, Err(QueryError::EngineQueryFailed(_))));
    let found = analyzer.ssr_search("foo($a) ==>> bar($a)", None);
    assert!(matches!(found, Err(QueryError::EngineQueryFailed(_))));
    let outcome = analyzer.ssr("foo($a) ==>> bar($a)", Some("/other.rs"), false);
    assert!(matches!(outcome, Err(QueryError::UnknownFile)));
}

#[test]
fn structural_search_gives_the_matched_texts() {
    let mut analyzer = session(&[("/lib.rs", CALLS)]);
    let found = analyzer.ssr_search("foo($a)", Some("/lib.rs")).unwrap();
    let texts: Vec<&str> = found.iter().map(|m| m.matched_text.as_str()).collect();
    assert_eq!(texts, vec!["foo(1)", "foo(2)"]);
    assert!(found.iter().all(|m| m.replacement.is_none()));
    // The engine refuses a template with a placeholder that the pattern
    // does not bind, so the places of the matches stay unknown.
    for m in &found {
        assert_eq!(m.file_path, "");
        assert_eq!((m.line, m.column, m.end_line, m.end_column), (0, 0, 0, 0));
    }
    assert!(analyzer.ssr_search("bar($a)", None).unwrap().is_empty());
}

#[test]
fn inlay_hints_are_written_into_the_text() {
    let text = "fn one() -> i32 { 1 }\nfn main() {\n    let p = one();\n}\n";
    let mut analyzer = session(&[("/lib.rs", text)]);
    let whole = analyzer.view_inlay_hints("/lib.rs", None, None).unwrap();
    assert_eq!(whole, "fn one() -> i32 { 1 }\nfn main() {\n    let p: i32 = one();\n}\n");
    let line = analyzer.view_inlay_hints("/lib.rs", Some(3), Some(3)).unwrap();
    assert_eq!(line, "    let p: i32 = one();");
    let lines = analyzer.view_inlay_hints("/lib.rs", Some(2), Some(99)).unwrap();
    assert_eq!(lines, "fn main() {\n    let p: i32 = one();\n}");
    let outside = analyzer.view_inlay_hints("/lib.rs", Some(9), Some(10));
    assert!(matches!(outside, Err(QueryError::OutOfBounds)));
    let reversed = analyzer.view_inlay_hints("/lib.rs", Some(3), Some(2));
    assert!(matches!(reversed, Err(QueryError::OutOfBounds)));
    let unknown = analyzer.view_inlay_hints("/other.rs", None, None);
    assert!(matches!(unknown, Err(QueryError::UnknownFile)));
}

#[test]
fn summary_of_a_function() {
    let mut analyzer = session(&[("/lib.rs", SHAPES)]);
    let query = analyzer.setup_cursor_analysis(&cursor("/lib.rs", 8, 13, None), None).unwrap();
    let outcome = goto(&query);
    let summary = RustAnalyzerish::analyze_symbol(&query, outcome).unwrap();
    assert!(summary.type_info.as_deref().unwrap_or("").contains("fn origin() -> Point"));
    assert_eq!(summary.definitions.len(), 1);
    assert_eq!(summary.definitions[0].name, "origin");
    assert_eq!(summary.definitions[0].line, 3);
    assert_eq!(summary.reference_count, 1);
    let callers: Vec<&str> = summary.callers.iter().map(|c| c.name.as_str()).collect();
    assert_eq!(callers, vec!["main"]);
    assert_eq!(summary.callers[0].file_path, "/lib.rs");
    assert_eq!(summary.callers[0].line, 7);
    assert!(summary.callees.is_empty());
    let panicked = RustAnalyzerish::analyze_symbol(&query, GotoOutcome::Panicked).unwrap();
    assert!(panicked.definitions.is_empty());
    assert_eq!(panicked.reference_count, 1);
}

#[test]
fn rename_across_two_files() {
    let root = "mod other;\npub fn shared() {}\nfn main() { shared(); }\n";
    let other = "pub fn user() { crate::shared(); }\n";
    let mut analyzer = session(&[("/lib.rs", root), ("/other.rs", other)]);
    let renamed = analyzer
        .get_rename_info(&cursor("/lib.rs", 2, 1, Some("shared")), "common", Some(root))
        .unwrap()
        .expect("the rename is possible");
    let mut paths: Vec<&str> = renamed.file_changes.iter().map(|c| c.file_path.as_str()).collect();
    paths.sort();
    assert_eq!(paths, vec!["/lib.rs", "/other.rs"]);
    for change in &renamed.file_changes {
        let before = if change.file_path == "/lib.rs" { root } else { other };
        let after = String::from_utf8(apply_file_change(before, change).unwrap()).unwrap();
        assert_eq!(after, before.replace("shared", "common"));
    }
}

#[test]
fn rename_that_the_engine_refuses_is_none() {
    let mut analyzer = session(&[("/a.rs", "fn main(){let x=1;}")]);
    let renamed = analyzer.get_rename_info(&cursor("/a.rs", 1, 15, None), "not a name", None);
    assert!(matches!(renamed, Ok(None)));
}

#[test]
fn symbol_without_disk_text_is_io_error() {
    let mut analyzer = session(&[("/a.rs", "fn main(){let x=1;}")]);
    let hint = analyzer.get_type_hint(&cursor("/a.rs", 1, 1, Some("x")), None);
    assert!(matches!(hint, Err(QueryError::IoError(_))));
}

#[test]
fn session_takes_changes_again_once_a_query_is_dropped() {
    let mut analyzer = session(&[("/a.rs", "fn main(){let x=1;}")]);
    {
        let query = analyzer.setup_cursor_analysis(&cursor("/a.rs", 1, 15, None), None).unwrap();
        assert_eq!(query.file(), FileHandle(0));
        assert_eq!(query.offset(), 14);
        assert_eq!((query.cursor().line, query.cursor().column), (1, 15));
        assert_eq!(query.analyzer().file_watcher().file_count(), 1);
        let found = RustAnalyzerish::get_definition(&query, goto(&query)).unwrap().unwrap();
        assert_eq!(found.len(), 1);
        assert_eq!((found[0].line, found[0].column), (1, 15));
    }
    analyzer.queue_change("/a.rs", Some("fn main(){let x=1u16;}".to_string()));
    let hint = analyzer
        .get_type_hint(&cursor("/a.rs", 1, 15, None), None)
        .unwrap()
        .expect("the engine knows the type");
    assert!(hint.symbol.contains("u16"));
}

#[test]
fn rename_without_edits_changes_nothing() {
    let mut probe = session(&[("/lib.rs", CALLS)]);
    let query = probe.setup_cursor_analysis(&cursor("/lib.rs", 1, 1, None), None).unwrap();
    let none = query.analyzer().file_changes(query.analysis(), &vec![]).unwrap();
    assert!(none.is_empty());
    let empty = ResolvedAssist { id: "empty".to_string(), files: Some(vec![]), is_snippet: false };
    let change = query
        .analyzer()
        .assist_outcome(query.analysis(), &vec![empty], "empty")
        .unwrap()
        .expect("an action without edits in any file changes nothing");
    assert!(change.file_changes.is_empty());
}

fn place(file: u32, name: &str, start: u32, end: u32) -> NavTarget {
    NavTarget {
        file: FileHandle(file),
        focus_start: start,
        focus_end: end,
        full_start: 0,
        full_end: 17,
        name: name.to_string(),
        kind: None,
        container: Some("shapes".to_string()),
        description: None,
    }
}

#[test]
fn definitions_of_the_answers_for_places() {
    let analyzer = session(&[("/lib.rs", CALLS)]);
    let answer = |file: u32, with_table: bool| DefinitionAnswer {
        nav: place(file, "foo", 3, 6),
        index: if with_table { line_index_of(CALLS) } else { None },
        moniker: RawMoniker::Local,
        text: if with_table { Some(Ok(CALLS.to_string())) } else { None },
    };
    let found = analyzer
        .definitions_of_answers(&vec![answer(0, true), answer(0, false), answer(0, true)])
        .unwrap()
        .unwrap();
    assert_eq!(found.len(), 2);
    assert_eq!(found[0].file_path, "/lib.rs");
    assert_eq!((found[0].line, found[0].column, found[0].end_line, found[0].end_column), (1, 4, 1, 7));
    assert_eq!(found[0].module, "shapes");
    assert_eq!(found[0].content, "fn foo(a: i32) {}");
    assert_eq!(analyzer.definitions_of_answers(&vec![]).unwrap().unwrap().len(), 0);
    let stray = analyzer.definitions_of_answers(&vec![answer(0, true), answer(3, false)]);
    assert!(matches!(stray, Err(QueryError::UnknownFile)));
}

#[test]
fn references_of_the_answers_for_one_search() {
    let analyzer = session(&[("/lib.rs", CALLS)]);
    let declared = Some(PlaceAnswer {
        nav: place(0, "foo", 3, 6),
        index: line_index_of(CALLS),
        text: Some(Ok(CALLS.to_string())),
    });
    let files = vec![
        FileRanges { file: FileHandle(0), ranges: vec![(48, 51), (56, 59)] },
        FileRanges { file: FileHandle(5), ranges: vec![(1, 2)] },
        FileRanges { file: FileHandle(0), ranges: vec![(18, 20)] },
    ];
    let shown = || FileAnswer { index: line_index_of(CALLS), text: Some(Ok(CALLS.to_string())) };
    let answers = vec![shown(), FileAnswer { index: None, text: None }, FileAnswer { index: line_index_of(CALLS), text: Some(Err("gone".to_string())) }];
    let mut found = Vec::new();
    analyzer.references_from(&declared, &files, &answers, &mut found);
    let listed: Vec<(u32, u32, bool, &str, &str)> = found
        .iter()
        .map(|r| (r.line, r.column, r.is_definition, r.name.as_str(), r.content.as_str()))
        .collect();
    assert_eq!(
        listed,
        vec![
            (1, 4, true, "foo", "fn foo(a: i32) {}"),
            (3, 13, false, "foo", "fn main() { foo(1); foo(2); }"),
            (3, 21, false, "foo", "fn main() { foo(1); foo(2); }"),
        ]
    );
    let before = found.len();
    let again = vec![FileRanges { file: FileHandle(0), ranges: vec![(48, 51), (56, 59)] }];
    analyzer.references_from(&None, &again, &vec![shown()], &mut found);
    assert_eq!(found.len(), before + 2);
    assert_eq!(found[before].name, "unknown");
}

#[test]
fn matches_of_no_edits_are_none() {
    let analyzer = session(&[("/lib.rs", CALLS)]);
    let (matches, changes) = analyzer.matches_of(&vec![], &vec!["foo(1)".to_string()], true).unwrap();
    assert!(matches.is_empty());
    assert!(changes.is_empty());
    let outcome = session(&[("/lib.rs", CALLS)]).ssr("bar($a) ==>> foo($a)", None, false).unwrap();
    assert!(outcome.matches.is_empty());
    assert_eq!(outcome.file_changes.map(|c| c.len()), Some(0));
    assert!(!outcome.dry_run);
}

#[test]
fn summaries_callers_and_hits_of_the_answers() {
    let analyzer = session(&[("/lib.rs", CALLS)]);
    let summaries = analyzer.summaries_of_answers(&vec![
        PlaceAnswer { nav: place(0, "foo", 3, 6), index: line_index_of(CALLS), text: Some(Ok(CALLS.to_string())) },
        PlaceAnswer { nav: place(9, "far", 3, 6), index: line_index_of(CALLS), text: None },
        PlaceAnswer { nav: place(0, "bar", 21, 24), index: None, text: None },
        PlaceAnswer { nav: place(0, "bar", 21, 24), index: line_index_of(CALLS), text: Some(Err("gone".to_string())) },
    ]);
    let listed: Vec<(&str, u32, u32, &str, &str)> = summaries
        .iter()
        .map(|d| (d.name.as_str(), d.line, d.column, d.module.as_str(), d.content.as_str()))
        .collect();
    assert_eq!(
        listed,
        vec![("foo", 1, 4, "shapes", "fn foo(a: i32) {}"), ("bar", 2, 4, "shapes", "")]
    );
    let callers = analyzer.callers_of_answers(&vec![
        CallAnswer { nav: place(0, "main", 39, 43), index: line_index_of(CALLS) },
        CallAnswer { nav: place(9, "far", 3, 6), index: None },
        CallAnswer { nav: place(0, "bar", 21, 24), index: None },
    ]);
    let listed: Vec<(&str, &str, u32, u32)> =
        callers.iter().map(|c| (c.name.as_str(), c.file_path.as_str(), c.line, c.column)).collect();
    assert_eq!(
        listed,
        vec![("main", "/lib.rs", 3, 4), ("far", "unknown", 0, 0), ("bar", "/lib.rs", 0, 0)]
    );
    let hits = analyzer.hits_of_answers(&vec![
        HitAnswer { nav: place(9, "far", 3, 6), kind: None, index: None },
        HitAnswer { nav: place(0, "bar", 21, 24), kind: Some("Function".to_string()), index: line_index_of(CALLS) },
        HitAnswer { nav: place(0, "foo", 3, 6), kind: None, index: None },
    ]);
    assert_eq!(hits.len(), 1);
    assert_eq!((hits[0].name.as_str(), hits[0].line, hits[0].column), ("bar", 2, 4));
    assert_eq!(hits[0].kind.as_deref(), Some("Function"));
    assert_eq!(hits[0].file_path, "/lib.rs");
}
