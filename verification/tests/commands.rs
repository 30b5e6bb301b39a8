use librustbelt::command::{
    default_search_limit, extract_workspace_path, AnalyzerCommand, ApplyAssistParams,
    CommandWrapper, CursorParams, RenameParams,
};

fn at(symbol: Option<&str>) -> AnalyzerCommand {
    AnalyzerCommand::TypeHint {
        file_path: "/w/src/a.rs".to_string(),
        line: 3,
        column: 9,
        symbol: symbol.map(|s| s.to_string()),
    }
}

#[test]
fn search_limit_defaults_to_fifty() {
    assert_eq!(default_search_limit(), 50);
}

#[test]
fn workspace_of_a_command_is_found_from_its_file() {
    assert_eq!(extract_workspace_path(&at(None)).as_deref(), Some("/w/src/a.rs"));
    let outline = AnalyzerCommand::GetFileOutline { file_path: "/w/b.rs".to_string() };
    assert_eq!(extract_workspace_path(&outline).as_deref(), Some("/w/b.rs"));
    let hints = AnalyzerCommand::ViewInlayHints {
        file_path: "/w/c.rs".to_string(),
        start_line: None,
        end_line: Some(4),
    };
    assert_eq!(extract_workspace_path(&hints).as_deref(), Some("/w/c.rs"));
    let rename = AnalyzerCommand::RenameSymbol {
        file_path: "/w/d.rs".to_string(),
        line: 1,
        column: 1,
        new_name: "n".to_string(),
        symbol: None,
    };
    assert_eq!(extract_workspace_path(&rename).as_deref(), Some("/w/d.rs"));
}

#[test]
fn workspace_of_a_search_is_that_of_its_context_or_none() {
    let search = AnalyzerCommand::SearchSymbols { query: "x".to_string(), limit: 5 };
    assert_eq!(extract_workspace_path(&search), None);
    let ssr = AnalyzerCommand::Ssr {
        pattern: "a ==>> b".to_string(),
        context_file: Some("/w/a.rs".to_string()),
        dry_run: true,
    };
    assert_eq!(extract_workspace_path(&ssr).as_deref(), Some("/w/a.rs"));
    let ssr_search = AnalyzerCommand::SsrSearch { pattern: "a".to_string(), context_file: None };
    assert_eq!(extract_workspace_path(&ssr_search), None);
}

#[test]
fn cursor_of_a_command() {
    let wrapper = CommandWrapper { command: at(Some("foo")) };
    let cursor = wrapper.command.cursor().unwrap();
    assert_eq!(cursor.file_path, "/w/src/a.rs");
    assert_eq!((cursor.line, cursor.column), (3, 9));
    assert_eq!(cursor.symbol.as_deref(), Some("foo"));
    let assist = AnalyzerCommand::ApplyAssist {
        file_path: "/w/a.rs".to_string(),
        line: 2,
        column: 0,
        assist_id: "id".to_string(),
        symbol: None,
    };
    let cursor = assist.cursor().unwrap();
    assert_eq!((cursor.line, cursor.column), (2, 0));
    assert!(cursor.symbol.is_none());
    let search = AnalyzerCommand::SearchSymbols { query: "x".to_string(), limit: 5 };
    assert!(search.cursor().is_none());
    let outline = AnalyzerCommand::GetFileOutline { file_path: "/w/b.rs".to_string() };
    assert!(outline.cursor().is_none());
}

#[test]
fn cursor_of_tool_parameters() {
    let params = CursorParams {
        file_path: "/w/a.rs".to_string(),
        line: 7,
        column: 2,
        symbol: Some("s".to_string()),
    };
    let cursor = params.cursor();
    assert_eq!((cursor.file_path.as_str(), cursor.line, cursor.column), ("/w/a.rs", 7, 2));
    assert_eq!(cursor.symbol.as_deref(), Some("s"));
    let rename = RenameParams {
        file_path: "/w/b.rs".to_string(),
        line: 1,
        column: 1,
        symbol: None,
        new_name: "n".to_string(),
    };
    assert_eq!(rename.cursor().file_path, "/w/b.rs");
    let assist = ApplyAssistParams {
        file_path: "/w/c.rs".to_string(),
        line: 4,
        column: 5,
        symbol: None,
        assist_id: "id".to_string(),
    };
    assert_eq!((assist.cursor().line, assist.cursor().column), (4, 5));
}
