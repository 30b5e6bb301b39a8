use librustbelt::analyzer::{
    assists_from, count_ranges, diagnostics_from, hint_insertion, hint_insertions, outline_from,
    type_hint_from, DiagnosticGiven,
};
use librustbelt::changes::ByteEdit;
use librustbelt::convert::{
    assist_info_from, caller_from, completion_from, definition_content, definition_from,
    first_moniker, module_name, present, outline_item_from, place, plain_content, search_result_from, ssr_match_from,
    ssr_match_without_place,
};
use librustbelt::cursor::CursorCoordinates;
use librustbelt::entities::DiagnosticFix;
use librustbelt::error::QueryError;
use librustbelt::engine::{
    FileRanges, NavTarget, RawAssist, RawCompletion, RawHint, RawMoniker, RawNode,
};
use librustbelt::position::line_index_of;
use librustbelt::text::{select_lines, text_of_bytes};
use librustbelt::tracker::FileHandle;

fn nav(name: &str, start: u32, end: u32, container: Option<&str>) -> NavTarget {
    NavTarget {
        file: FileHandle(0),
        focus_start: start,
        focus_end: end,
        full_start: 0,
        full_end: end,
        name: name.to_string(),
        kind: None,
        container: container.map(|c| c.to_string()),
        description: Some("about".to_string()),
    }
}

#[test]
fn place_of_an_offset_or_zeros() {
    let index = line_index_of("ab\ncd").unwrap();
    assert_eq!(place(&index, 4), (2, 2));
    assert_eq!(place(&index, 5), (2, 3));
    assert_eq!(place(&index, 6), (0, 0));
}

#[test]
fn completion_joins_its_imports() {
    let raw = RawCompletion {
        name: "HashMap".to_string(),
        kind: "Struct".to_string(),
        detail: Some("struct".to_string()),
        documentation: None,
        imports: vec!["std::collections::HashMap".to_string(), "std::hash::Hash".to_string()],
        deprecated: true,
    };
    let item = completion_from(raw);
    assert_eq!(item.name, "HashMap");
    assert_eq!(item.kind.as_deref(), Some("Struct"));
    assert_eq!(item.signature.as_deref(), Some("struct"));
    assert_eq!(item.required_import.as_deref(), Some("std::collections::HashMap, std::hash::Hash"));
    assert!(item.deprecated);
    let raw = RawCompletion {
        name: "x".to_string(),
        kind: "Binding".to_string(),
        detail: None,
        documentation: Some("doc".to_string()),
        imports: vec![],
        deprecated: false,
    };
    let item = completion_from(raw);
    assert_eq!(item.required_import, None);
    assert_eq!(item.documentation.as_deref(), Some("doc"));
}

#[test]
fn module_of_a_definition() {
    let global = RawMoniker::Global {
        crate_name: "krate".to_string(),
        parts: vec!["shapes".to_string(), "Point".to_string()],
    };
    assert_eq!(module_name(&global, &None), "krate::shapes::Point");
    let root = RawMoniker::Global { crate_name: "krate".to_string(), parts: vec![] };
    assert_eq!(module_name(&root, &Some("ignored".to_string())), "krate");
    assert_eq!(module_name(&RawMoniker::Local, &Some("main".to_string())), "main");
    assert_eq!(module_name(&RawMoniker::Local, &None), "local");
    assert_eq!(module_name(&RawMoniker::Nameless, &None), "unknown");
    assert_eq!(module_name(&RawMoniker::Unavailable, &None), "unknown");
    assert_eq!(module_name(&RawMoniker::Unavailable, &Some("m".to_string())), "m");
}

#[test]
fn content_of_a_definition() {
    let text = Ok("fn a() {}\nfn b() {}".to_string());
    assert_eq!(definition_content(&text, 10, 19), "fn b() {}");
    assert_eq!(definition_content(&text, 0, 9), "fn a() {}");
    assert_eq!(
        definition_content(&text, 10, 20),
        "// Content extraction failed: invalid range 10..20"
    );
    assert_eq!(
        definition_content(&text, 19, 19),
        "// Content extraction failed: invalid range 19..19"
    );
    assert_eq!(
        definition_content(&Err("gone".to_string()), 0, 1),
        "// Content extraction failed: could not read source"
    );
    assert_eq!(plain_content(&text, 10, 19), "fn b() {}");
    assert_eq!(plain_content(&text, 10, 20), "");
    assert_eq!(plain_content(&Err("gone".to_string()), 0, 1), "");
}

#[test]
fn definition_from_a_place() {
    let index = line_index_of("ab\nfn origin() {}").unwrap();
    let d = definition_from(
        &index,
        &nav("origin", 6, 12, Some("shapes")),
        "/w/a.rs".to_string(),
        "krate::shapes".to_string(),
        "fn origin() {}".to_string(),
    );
    assert_eq!((d.line, d.column, d.end_line, d.end_column), (2, 4, 2, 10));
    assert_eq!(d.name, "origin");
    assert_eq!(d.file_path, "/w/a.rs");
    assert_eq!(d.module, "krate::shapes");
    assert_eq!(d.content, "fn origin() {}");
    assert_eq!(d.description.as_deref(), Some("about"));
}

#[test]
fn assist_kind_is_its_group_or_refactor() {
    let mut raw = RawAssist {
        id: "add_impl".to_string(),
        group: Some("Generate".to_string()),
        label: "Add impl".to_string(),
        target: "1..5".to_string(),
        source_change: None,
    };
    let info = assist_info_from(&raw);
    assert_eq!(info.kind, "Generate");
    assert_eq!((info.id.as_str(), info.label.as_str(), info.target.as_str()), ("add_impl", "Add impl", "1..5"));
    assert!(info.source_change.is_none());
    raw.group = None;
    assert_eq!(assist_info_from(&raw).kind, "refactor");
}

#[test]
fn outline_item_from_a_node() {
    let index = line_index_of("a\nstruct S {\n}\n").unwrap();
    let item = outline_item_from(
        &index,
        RawNode {
            parent: Some(0),
            label: "S".to_string(),
            kind: "Struct".to_string(),
            detail: None,
            start: 2,
            end: 14,
            deprecated: false,
        },
    );
    assert_eq!((item.line, item.end_line), (2, 3));
    assert_eq!(item.parent_idx, Some(0));
    assert_eq!((item.name.as_str(), item.kind.as_str()), ("S", "Struct"));
}

#[test]
fn search_result_and_caller_from_a_place() {
    let index = line_index_of("ab\nfn origin() {}").unwrap();
    let target = nav("origin", 6, 12, Some("shapes"));
    let hit = search_result_from(&index, &target, "/w/a.rs".to_string(), Some("Function".to_string()));
    assert_eq!((hit.line, hit.column), (2, 4));
    assert_eq!(hit.container.as_deref(), Some("shapes"));
    assert_eq!(hit.kind.as_deref(), Some("Function"));
    let caller = caller_from(&target, Some("/w/a.rs".to_string()), Some(&index));
    assert_eq!((caller.file_path.as_str(), caller.line, caller.column), ("/w/a.rs", 2, 4));
    let lost = caller_from(&target, None, None);
    assert_eq!((lost.file_path.as_str(), lost.line, lost.column), ("unknown", 0, 0));
    assert_eq!(lost.name, "origin");
}

#[test]
fn structural_match_from_an_edit() {
    let index = line_index_of("x\nfoo(1);").unwrap();
    let edit = ByteEdit { start: 2, end: 8, insert: "bar(1)".to_string() };
    let found = ssr_match_from(
        &index,
        "/w/a.rs".to_string(),
        &edit,
        Some("foo(1)".to_string()),
        Some("reported".to_string()),
        true,
    );
    assert_eq!((found.line, found.column, found.end_line, found.end_column), (2, 1, 2, 7));
    assert_eq!(found.matched_text, "foo(1)");
    assert_eq!(found.replacement.as_deref(), Some("bar(1)"));
    let found = ssr_match_from(&index, "/w/a.rs".to_string(), &edit, None, Some("reported".to_string()), false);
    assert_eq!(found.matched_text, "reported");
    assert_eq!(found.replacement, None);
    let found = ssr_match_from(&index, "/w/a.rs".to_string(), &edit, None, None, false);
    assert_eq!(found.matched_text, "<unknown>");
    let past = ByteEdit { start: 2, end: 80, insert: String::new() };
    let lost = ssr_match_from(&index, "/w/a.rs".to_string(), &past, None, Some("foo(1)".to_string()), false);
    assert_eq!(lost.file_path, "");
    assert_eq!((lost.line, lost.column, lost.end_line, lost.end_column), (0, 0, 0, 0));
    assert_eq!(lost.matched_text, "foo(1)");
    let bare = ssr_match_without_place("foo(2)".to_string());
    assert_eq!((bare.file_path.as_str(), bare.line, bare.column), ("", 0, 0));
    assert_eq!(bare.matched_text, "foo(2)");
}

#[test]
fn type_hint_lists_all_paths_in_order() {
    let cursor = CursorCoordinates {
        file_path: "/w/a.rs".to_string(),
        line: 4,
        column: 9,
        symbol: None,
    };
    let paths = vec![
        vec!["a::A".to_string(), "b::B".to_string()],
        vec![],
        vec!["c::C".to_string()],
    ];
    let hint = type_hint_from(&cursor, "let p: A".to_string(), paths);
    assert_eq!(hint.canonical_types, vec!["a::A", "b::B", "c::C"]);
    assert_eq!((hint.file_path.as_str(), hint.line, hint.column), ("/w/a.rs", 4, 9));
    assert_eq!(hint.symbol, "let p: A");
}

#[test]
fn hint_goes_behind_or_before_its_range() {
    let mut hint = RawHint {
        parts: vec!["Vec<".to_string(), "i32".to_string(), ">".to_string()],
        after: true,
        start: 4,
        end: 5,
    };
    assert_eq!(hint_insertion(&hint), (5, ": Vec<i32>".to_string()));
    hint.after = false;
    assert_eq!(hint_insertion(&hint), (4, "Vec<i32>: ".to_string()));
}

#[test]
fn lines_of_a_text_by_number() {
    let text = "one\ntwo\nthree\n";
    assert_eq!(select_lines(text, 1, 1).as_deref(), Some("one"));
    assert_eq!(select_lines(text, 2, 3).as_deref(), Some("two\nthree"));
    assert_eq!(select_lines(text, 0, 2).as_deref(), Some("one\ntwo"));
    assert_eq!(select_lines(text, 3, 99).as_deref(), Some("three"));
    assert_eq!(select_lines(text, 4, 5), None);
    assert_eq!(select_lines(text, 2, 1), None);
    assert_eq!(select_lines(text, 1, 0), None);
    assert_eq!(select_lines("", 1, 1), None);
}

#[test]
fn text_of_bytes_is_checked_utf8() {
    assert_eq!(text_of_bytes(b"abc".to_vec()).as_deref(), Some("abc"));
    assert_eq!(text_of_bytes("é".as_bytes().to_vec()).as_deref(), Some("é"));
    assert_eq!(text_of_bytes(vec![0xC3]), None);
    assert_eq!(text_of_bytes(vec![]).as_deref(), Some(""));
}

#[test]
fn ranges_are_counted_over_all_files() {
    let files = vec![
        FileRanges { file: FileHandle(0), ranges: vec![(0, 1), (4, 5)] },
        FileRanges { file: FileHandle(1), ranges: vec![] },
        FileRanges { file: FileHandle(2), ranges: vec![(7, 9)] },
    ];
    assert_eq!(count_ranges(0, &files), 3);
    assert_eq!(count_ranges(10, &files), 13);
    assert_eq!(count_ranges(4, &vec![]), 4);
    assert_eq!(count_ranges(usize::MAX - 1, &files), usize::MAX);
}

#[test]
fn first_name_that_the_engine_gives() {
    let global = |name: &str| RawMoniker::Global { crate_name: name.to_string(), parts: vec![] };
    let first = first_moniker(Ok(Some(vec![global("one"), RawMoniker::Local, global("two")])));
    assert!(matches!(first, RawMoniker::Global { crate_name, .. } if crate_name == "one"));
    assert!(matches!(first_moniker(Ok(Some(vec![RawMoniker::Local]))), RawMoniker::Local));
    assert!(matches!(first_moniker(Ok(Some(vec![]))), RawMoniker::Nameless));
    assert!(matches!(first_moniker(Ok(None)), RawMoniker::Unavailable));
    assert!(matches!(first_moniker(Err("cancelled".to_string())), RawMoniker::Unavailable));
}

#[test]
fn code_actions_of_none_are_none() {
    assert!(assists_from(&vec![]).is_none());
    let raw = |id: &str, group: Option<&str>| RawAssist {
        id: id.to_string(),
        group: group.map(|g| g.to_string()),
        label: format!("label of {id}"),
        target: "0..1".to_string(),
        source_change: None,
    };
    let found = assists_from(&vec![raw("one", Some("Generate")), raw("two", None)]).unwrap();
    let shown: Vec<(&str, &str, &str)> =
        found.iter().map(|a| (a.id.as_str(), a.kind.as_str(), a.label.as_str())).collect();
    assert_eq!(shown, vec![("one", "Generate", "label of one"), ("two", "refactor", "label of two")]);
    assert!(found.iter().all(|a| a.source_change.is_none()));
}

#[test]
fn insertions_of_hints_that_fit_the_text() {
    let hint = |text: &str, after: bool, start: u32, end: u32| RawHint {
        parts: vec![text.to_string()],
        after,
        start,
        end,
    };
    let text = "let p = \u{e9};";
    let found = hint_insertions(text, &vec![hint("char", true, 4, 5), hint("x", false, 8, 10)]).unwrap();
    assert_eq!(found, vec![(5, ": char".to_string()), (8, "x: ".to_string())]);
    assert_eq!(hint_insertions(text, &vec![]).unwrap(), vec![]);
    let past = hint_insertions(text, &vec![hint("char", true, 4, 12)]);
    assert!(matches!(past, Err(QueryError::OutOfBounds)));
    let inside = hint_insertions(text, &vec![hint("char", true, 4, 9)]);
    assert!(matches!(inside, Err(QueryError::OutOfBounds)));
    let at_end = hint_insertions(text, &vec![hint("end", true, 4, 11)]).unwrap();
    assert_eq!(at_end, vec![(11, ": end".to_string())]);
}

#[test]
fn diagnostics_at_their_places_in_order() {
    let index = line_index_of("fn a() {}\nfn b() {").unwrap();
    let given = |message: &str, start: u32, end: u32, fixes: Vec<DiagnosticFix>| DiagnosticGiven {
        message: message.to_string(),
        severity: "Error".to_string(),
        code: "E1".to_string(),
        start,
        end,
        fixes,
    };
    let fix = DiagnosticFix { label: "close".to_string(), file_changes: vec![] };
    let found = diagnostics_from(
        &index,
        "/w/a.rs",
        vec![given("first", 0, 2, vec![]), given("second", 17, 18, vec![fix]), given("lost", 40, 41, vec![])],
    );
    let shown: Vec<(&str, u32, u32, u32, u32, usize)> = found
        .iter()
        .map(|d| (d.message.as_str(), d.line, d.column, d.end_line, d.end_column, d.fixes.len()))
        .collect();
    assert_eq!(
        shown,
        vec![("first", 1, 1, 1, 3, 0), ("second", 2, 8, 2, 9, 1), ("lost", 0, 0, 0, 0, 0)]
    );
    assert!(found.iter().all(|d| d.file_path == "/w/a.rs" && d.severity == "Error" && d.code == "E1"));
    assert_eq!(found[1].fixes[0].label, "close");
}

#[test]
fn values_that_are_there_in_their_order() {
    assert_eq!(present(vec![Some(1), None, Some(3), None, None, Some(2)]), vec![1, 3, 2]);
    assert_eq!(present(vec![None::<u8>, None]), Vec::<u8>::new());
    assert_eq!(present(Vec::<Option<String>>::new()), Vec::<String>::new());
}

#[test]
fn outline_of_the_items_in_order() {
    let index = line_index_of("mod m {\n    fn a() {}\n}\n").unwrap();
    let node = |label: &str, parent: Option<usize>, start: u32, end: u32| RawNode {
        parent,
        label: label.to_string(),
        kind: "Function".to_string(),
        detail: None,
        start,
        end,
        deprecated: false,
    };
    let outline = outline_from(&index, vec![node("m", None, 0, 23), node("a", Some(0), 12, 21)]);
    let listed: Vec<(&str, u32, u32, Option<usize>)> =
        outline.iter().map(|i| (i.name.as_str(), i.line, i.end_line, i.parent_idx)).collect();
    assert_eq!(listed, vec![("m", 1, 3, None), ("a", 2, 2, Some(0))]);
    assert!(outline_from(&index, vec![]).is_empty());
}
