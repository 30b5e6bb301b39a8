use librustbelt::entities::{
    AssistInfo, AssistSourceChange, CallerInfo, CompletionItem, DefinitionInfo, DiagnosticFix,
    DiagnosticInfo, FileChange, FileOutlineItem, MacroExpansion, ReferenceInfo, RenameResult,
    SignatureInfo, SymbolAnalysis, SymbolSearchResult, TextEdit, TypeHint,
};

fn edit(line: u32, column: u32, end_line: u32, end_column: u32, new_text: &str) -> TextEdit {
    TextEdit { line, column, end_line, end_column, new_text: new_text.to_string() }
}

fn definition(path: &str, line: u32, column: u32, name: &str, content: &str) -> DefinitionInfo {
    DefinitionInfo {
        file_path: path.to_string(),
        line,
        column,
        end_line: line,
        end_column: column + name.len() as u32,
        name: name.to_string(),
        kind: None,
        content: content.to_string(),
        module: "krate".to_string(),
        description: None,
    }
}

#[test]
fn text_edit_as_shown() {
    assert_eq!(edit(3, 14, 3, 15, "y").render(), "3:14-3:15 → 'y'");
    assert_eq!(edit(10, 1, 12, 100, "").render(), "10:1-12:100 → ''");
}

#[test]
fn file_change_as_shown() {
    let change = FileChange {
        file_path: "/w/a.rs".to_string(),
        edits: vec![edit(1, 1, 1, 2, "a"), edit(2, 1, 2, 2, "b")],
    };
    assert_eq!(change.render(), "/w/a.rs\n  ↳ 1:1-1:2 → 'a'\n  ↳ 2:1-2:2 → 'b'\n");
    let empty = FileChange { file_path: "/w/a.rs".to_string(), edits: vec![] };
    assert_eq!(empty.render(), "/w/a.rs\n");
}

#[test]
fn rename_result_as_shown() {
    let result = RenameResult {
        file_changes: vec![
            FileChange { file_path: "/w/a.rs".to_string(), edits: vec![edit(1, 1, 1, 2, "a")] },
            FileChange { file_path: "/w/b.rs".to_string(), edits: vec![] },
        ],
    };
    assert_eq!(
        result.render(),
        "Successfully renamed symbol in 2 file(s):\n\n/w/a.rs\n  ↳ 1:1-1:2 → 'a'\n\n/w/b.rs\n\n"
    );
    let none = RenameResult { file_changes: vec![] };
    assert_eq!(none.render(), "Successfully renamed symbol in 0 file(s):\n\n");
}

#[test]
fn type_hint_as_shown() {
    let hint = TypeHint {
        file_path: "/w/a.rs".to_string(),
        line: 4,
        column: 9,
        symbol: "let p: Point".to_string(),
        canonical_types: vec!["krate::Point".to_string(), "core::i32".to_string()],
    };
    assert_eq!(
        hint.render(),
        "/w/a.rs:4:9\n```md\nlet p: Point\n```\nRelevant types: krate::Point, core::i32"
    );
}

#[test]
fn definition_as_shown() {
    let d = definition("/w/a.rs", 3, 4, "origin", "fn origin() {}");
    assert_eq!(d.render(), "/w/a.rs:3:4\nfn origin() {}");
    assert_eq!(d.render_listed(), "/w/a.rs:3:4 origin");
}

#[test]
fn completion_as_shown() {
    let mut item = CompletionItem {
        name: "push".to_string(),
        required_import: None,
        kind: Some("Method".to_string()),
        signature: Some("fn(&mut self, T)".to_string()),
        documentation: None,
        deprecated: false,
    };
    assert_eq!(item.render(), "push (Method) - fn(&mut self, T)");
    item.kind = None;
    assert_eq!(item.render(), "push - fn(&mut self, T)");
    item.signature = None;
    assert_eq!(item.render(), "push");
}

#[test]
fn reference_as_shown() {
    let mut r = ReferenceInfo {
        file_path: "/w/a.rs".to_string(),
        line: 8,
        column: 13,
        end_line: 8,
        end_column: 19,
        name: "origin".to_string(),
        content: "    let p = origin();  \t".to_string(),
        is_definition: false,
    };
    assert_eq!(r.render(), "/w/a.rs:8:13 (ref) - let p = origin();");
    r.is_definition = true;
    assert_eq!(r.render(), "/w/a.rs:8:13 (def) - let p = origin();");
}

#[test]
fn assist_as_shown() {
    let assist = AssistInfo {
        id: "inline_local_variable".to_string(),
        kind: "refactor".to_string(),
        label: "Inline variable".to_string(),
        target: "20..21".to_string(),
        source_change: None,
    };
    assert_eq!(assist.render(), "Inline variable (refactor): 20..21");
    let change = AssistSourceChange {
        file_changes: vec![FileChange { file_path: "/w/a.rs".to_string(), edits: vec![] }],
        is_snippet: false,
    };
    assert_eq!(change.render(), "Changes to 1 files");
}

#[test]
fn diagnostic_as_shown() {
    let fix = DiagnosticFix {
        label: "Remove".to_string(),
        file_changes: vec![FileChange {
            file_path: "/w/a.rs".to_string(),
            edits: vec![edit(2, 5, 2, 9, "")],
        }],
    };
    assert_eq!(fix.render(), "  fix: Remove\n    /w/a.rs\n  ↳ 2:5-2:9 → ''\n");
    let diagnostic = DiagnosticInfo {
        message: "unused variable".to_string(),
        severity: "Warning".to_string(),
        code: "unused_variables".to_string(),
        file_path: "/w/a.rs".to_string(),
        line: 2,
        column: 5,
        end_line: 2,
        end_column: 9,
        fixes: vec![fix],
    };
    assert_eq!(
        diagnostic.render(),
        "[Warning] /w/a.rs:2:5: unused variable (unused_variables)\n  fix: Remove\n    /w/a.rs\n  ↳ 2:5-2:9 → ''\n"
    );
    let plain = DiagnosticInfo { fixes: vec![], ..diagnostic };
    assert_eq!(plain.render(), "[Warning] /w/a.rs:2:5: unused variable (unused_variables)");
}

#[test]
fn caller_as_shown() {
    let caller = CallerInfo {
        name: "main".to_string(),
        file_path: "/w/a.rs".to_string(),
        line: 7,
        column: 4,
    };
    assert_eq!(caller.render(), "/w/a.rs:7:4 (main)");
}

#[test]
fn summary_as_shown() {
    let full = SymbolAnalysis {
        type_info: Some("fn origin() -> Point".to_string()),
        canonical_types: vec!["krate::Point".to_string()],
        definitions: vec![definition("/w/a.rs", 3, 4, "origin", "fn origin() {}")],
        implementations: vec![definition("/w/b.rs", 1, 6, "Shape", "impl Shape for Point {}")],
        callers: vec![CallerInfo {
            name: "main".to_string(),
            file_path: "/w/a.rs".to_string(),
            line: 7,
            column: 4,
        }],
        callees: vec![],
        reference_count: 12,
    };
    assert_eq!(
        full.render(),
        "## Type Info\nfn origin() -> Point\n\n## Canonical Types\nkrate::Point\n\n## Definition\n/w/a.rs:3:4\nfn origin() {}\n\n## Implementations (1)\n- /w/b.rs:1:6 Shape\n\n## Callers (1)\n- /w/a.rs:7:4 (main)\n\n## References: 12"
    );
    let bare = SymbolAnalysis {
        type_info: None,
        canonical_types: vec![],
        definitions: vec![],
        implementations: vec![],
        callers: vec![],
        callees: vec![],
        reference_count: 0,
    };
    assert_eq!(bare.render(), "\n## References: 0");
}

#[test]
fn outline_item_as_shown() {
    let mut item = FileOutlineItem {
        name: "origin".to_string(),
        kind: "Function".to_string(),
        detail: Some("fn() -> Point".to_string()),
        line: 3,
        end_line: 5,
        parent_idx: None,
        deprecated: true,
    };
    assert_eq!(item.render(), "L3-5 Function origin — fn() -> Point [deprecated]");
    item.deprecated = false;
    item.detail = None;
    assert_eq!(item.render(), "L3-5 Function origin");
}

#[test]
fn search_result_as_shown() {
    let mut hit = SymbolSearchResult {
        name: "origin".to_string(),
        kind: Some("Function".to_string()),
        file_path: "/w/a.rs".to_string(),
        line: 3,
        column: 4,
        container: Some("shapes".to_string()),
        description: Some("fn origin() -> Point".to_string()),
    };
    assert_eq!(hit.render(), "/w/a.rs:3:4 origin (Function) in shapes — fn origin() -> Point");
    hit.kind = None;
    hit.container = None;
    hit.description = None;
    assert_eq!(hit.render(), "/w/a.rs:3:4 origin");
}

#[test]
fn macro_expansion_as_shown() {
    let expansion = MacroExpansion { name: "two!".to_string(), expansion: "1 + 1".to_string() };
    assert_eq!(expansion.render(), "Macro: two!\n\n```rust\n1 + 1\n```\n");
}

#[test]
fn signature_as_shown() {
    let mut help = SignatureInfo {
        signature: "fn add(a: i32, b: i32) -> i32".to_string(),
        parameters: vec!["a: i32".to_string(), "b: i32".to_string()],
        active_parameter: Some(1),
        documentation: Some("Adds.".to_string()),
    };
    assert_eq!(
        help.render(),
        "fn add(a: i32, b: i32) -> i32\n\nParameters:\n   a: i32\n → b: i32\n\nAdds."
    );
    help.active_parameter = None;
    help.documentation = None;
    assert_eq!(help.render(), "fn add(a: i32, b: i32) -> i32\n\nParameters:\n   a: i32\n   b: i32\n");
    help.parameters.clear();
    assert_eq!(help.render(), "fn add(a: i32, b: i32) -> i32\n");
}
