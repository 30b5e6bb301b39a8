//! The commands of the command line and the parameters of the tools that a
//! server offers, with the cursors and workspaces they name.

use vstd::prelude::*;
use crate::convert::copy_text;
use crate::cursor::CursorCoordinates;

verus! {

/// A command line that holds one command.
#[derive(Debug, Clone)]
pub struct CommandWrapper {
    pub command: AnalyzerCommand,
}

/// What can be asked of a session.
#[derive(Debug, Clone)]
pub enum AnalyzerCommand {
    /// The type of the symbol at a position.
    TypeHint { file_path: String, line: u32, column: u32, symbol: Option<String> },
    /// The definitions of the symbol at a position.
    GetDefinition { file_path: String, line: u32, column: u32, symbol: Option<String> },
    /// The completions at a position.
    GetCompletions { file_path: String, line: u32, column: u32, symbol: Option<String> },
    /// All references to the symbol at a position.
    FindReferences { file_path: String, line: u32, column: u32, symbol: Option<String> },
    /// A file with the inferred types written into it.
    ViewInlayHints { file_path: String, start_line: Option<u32>, end_line: Option<u32> },
    /// The code actions on offer at a position.
    GetAssists { file_path: String, line: u32, column: u32, symbol: Option<String> },
    /// One code action at a position, carried out.
    ApplyAssist {
        file_path: String,
        line: u32,
        column: u32,
        assist_id: String,
        symbol: Option<String>,
    },
    /// The symbol at a position, renamed.
    RenameSymbol {
        file_path: String,
        line: u32,
        column: u32,
        new_name: String,
        symbol: Option<String>,
    },
    /// All that is known of the symbol at a position.
    AnalyzeSymbol { file_path: String, line: u32, column: u32, symbol: Option<String> },
    /// The outline of a file.
    GetFileOutline { file_path: String },
    /// The diagnostics of a file.
    GetDiagnostics { file_path: String },
    /// The expansion of the macro call at a position.
    ExpandMacro { file_path: String, line: u32, column: u32, symbol: Option<String> },
    /// The symbols of the workspace whose names match a query.
    SearchSymbols { query: String, limit: usize },
    /// The signature of the function called at a position.
    GetSignatureHelp { file_path: String, line: u32, column: u32, symbol: Option<String> },
    /// Structural search and replace.
    Ssr { pattern: String, context_file: Option<String>, dry_run: bool },
    /// Structural search.
    SsrSearch { pattern: String, context_file: Option<String> },
}

/// The cursor that a command names, for the commands that name one.
pub open spec fn command_cursor(command: AnalyzerCommand) -> Option<CursorCoordinates> {
    match command {
        AnalyzerCommand::TypeHint { file_path, line, column, symbol }
        | AnalyzerCommand::GetDefinition { file_path, line, column, symbol }
        | AnalyzerCommand::GetCompletions { file_path, line, column, symbol }
        | AnalyzerCommand::FindReferences { file_path, line, column, symbol }
        | AnalyzerCommand::GetAssists { file_path, line, column, symbol }
        | AnalyzerCommand::AnalyzeSymbol { file_path, line, column, symbol }
        | AnalyzerCommand::ExpandMacro { file_path, line, column, symbol }
        | AnalyzerCommand::GetSignatureHelp { file_path, line, column, symbol } => Some(
            CursorCoordinates { file_path, line, column, symbol },
        ),
        AnalyzerCommand::ApplyAssist { file_path, line, column, symbol, .. }
        | AnalyzerCommand::RenameSymbol { file_path, line, column, symbol, .. } => Some(
            CursorCoordinates { file_path, line, column, symbol },
        ),
        _ => None,
    }
}

/// The path from which the workspace of a command is found: the file that
/// the command names; for a structural search the file that gives it its
/// context. `None` where the command names no file, and the workspace is
/// that of the directory the program runs in.
pub open spec fn command_workspace(command: AnalyzerCommand) -> Option<String> {
    match command {
        AnalyzerCommand::TypeHint { file_path, .. }
        | AnalyzerCommand::GetDefinition { file_path, .. }
        | AnalyzerCommand::GetCompletions { file_path, .. }
        | AnalyzerCommand::FindReferences { file_path, .. }
        | AnalyzerCommand::ViewInlayHints { file_path, .. }
        | AnalyzerCommand::GetAssists { file_path, .. }
        | AnalyzerCommand::ApplyAssist { file_path, .. }
        | AnalyzerCommand::RenameSymbol { file_path, .. }
        | AnalyzerCommand::AnalyzeSymbol { file_path, .. }
        | AnalyzerCommand::GetFileOutline { file_path }
        | AnalyzerCommand::GetDiagnostics { file_path }
        | AnalyzerCommand::ExpandMacro { file_path, .. }
        | AnalyzerCommand::GetSignatureHelp { file_path, .. } => Some(file_path),
        AnalyzerCommand::SearchSymbols { .. } => None,
        AnalyzerCommand::Ssr { context_file, .. }
        | AnalyzerCommand::SsrSearch { context_file, .. } => context_file,
    }
}

/// The cursor at `line` and `column` of `file_path`.
pub fn cursor_at(file_path: &String, line: u32, column: u32, symbol: &Option<String>) -> (cursor:
    CursorCoordinates)
    ensures
        cursor == (CursorCoordinates { file_path: *file_path, line, column, symbol: *symbol }),
{
    CursorCoordinates { file_path: file_path.clone(), line, column, symbol: copy_text(symbol) }
}

impl AnalyzerCommand {
    /// The cursor that the command names, for the commands that name one.
    pub fn cursor(&self) -> (cursor: Option<CursorCoordinates>)
        ensures
            cursor == command_cursor(*self),
    {
        match self {
            AnalyzerCommand::TypeHint { file_path, line, column, symbol } => Some(
                cursor_at(file_path, *line, *column, symbol),
            ),
            AnalyzerCommand::GetDefinition { file_path, line, column, symbol } => Some(
                cursor_at(file_path, *line, *column, symbol),
            ),
            AnalyzerCommand::GetCompletions { file_path, line, column, symbol } => Some(
                cursor_at(file_path, *line, *column, symbol),
            ),
            AnalyzerCommand::FindReferences { file_path, line, column, symbol } => Some(
                cursor_at(file_path, *line, *column, symbol),
            ),
            AnalyzerCommand::GetAssists { file_path, line, column, symbol } => Some(
                cursor_at(file_path, *line, *column, symbol),
            ),
            AnalyzerCommand::AnalyzeSymbol { file_path, line, column, symbol } => Some(
                cursor_at(file_path, *line, *column, symbol),
            ),
            AnalyzerCommand::ExpandMacro { file_path, line, column, symbol } => Some(
                cursor_at(file_path, *line, *column, symbol),
            ),
            AnalyzerCommand::GetSignatureHelp { file_path, line, column, symbol } => Some(
                cursor_at(file_path, *line, *column, symbol),
            ),
            AnalyzerCommand::ApplyAssist { file_path, line, column, assist_id, symbol } => Some(
                cursor_at(file_path, *line, *column, symbol),
            ),
            AnalyzerCommand::RenameSymbol { file_path, line, column, new_name, symbol } => Some(
                cursor_at(file_path, *line, *column, symbol),
            ),
            AnalyzerCommand::ViewInlayHints { .. } => None,
            AnalyzerCommand::GetFileOutline { .. } => None,
            AnalyzerCommand::GetDiagnostics { .. } => None,
            AnalyzerCommand::SearchSymbols { .. } => None,
            AnalyzerCommand::Ssr { .. } => None,
            AnalyzerCommand::SsrSearch { .. } => None,
        }
    }
}

/// The path from which the workspace of a command is found, or `None`
/// where the command names no file and the workspace is that of the
/// directory the program runs in.
pub fn extract_workspace_path(command: &AnalyzerCommand) -> (path: Option<String>)
    ensures
        path == command_workspace(*command),
{
    match command {
        AnalyzerCommand::TypeHint { file_path, .. } => Some(file_path.clone()),
        AnalyzerCommand::GetDefinition { file_path, .. } => Some(file_path.clone()),
        AnalyzerCommand::GetCompletions { file_path, .. } => Some(file_path.clone()),
        AnalyzerCommand::FindReferences { file_path, .. } => Some(file_path.clone()),
        AnalyzerCommand::ViewInlayHints { file_path, .. } => Some(file_path.clone()),
        AnalyzerCommand::GetAssists { file_path, .. } => Some(file_path.clone()),
        AnalyzerCommand::ApplyAssist { file_path, .. } => Some(file_path.clone()),
        AnalyzerCommand::RenameSymbol { file_path, .. } => Some(file_path.clone()),
        AnalyzerCommand::AnalyzeSymbol { file_path, .. } => Some(file_path.clone()),
        AnalyzerCommand::GetFileOutline { file_path } => Some(file_path.clone()),
        AnalyzerCommand::GetDiagnostics { file_path } => Some(file_path.clone()),
        AnalyzerCommand::ExpandMacro { file_path, .. } => Some(file_path.clone()),
        AnalyzerCommand::GetSignatureHelp { file_path, .. } => Some(file_path.clone()),
        AnalyzerCommand::SearchSymbols { .. } => None,
        AnalyzerCommand::Ssr { context_file, .. } => copy_text(context_file),
        AnalyzerCommand::SsrSearch { context_file, .. } => copy_text(context_file),
    }
}

/// Parameters of the rename tool.
#[derive(Debug, Clone)]
pub struct RenameParams {
    pub file_path: String,
    pub line: u32,
    pub column: u32,
    pub symbol: Option<String>,
    pub new_name: String,
}

/// Parameters of the tool that prints the outline of a crate.
#[derive(Debug, Clone)]
pub struct RuskelParams {
    pub target: String,
    pub features: Vec<String>,
    pub all_features: bool,
    pub no_default_features: bool,
    pub private: bool,
}

/// Parameters of the tool that shows a file with inferred types.
#[derive(Debug, Clone)]
pub struct ViewInlayHintsParams {
    pub file_path: String,
    pub start_line: Option<u32>,
    pub end_line: Option<u32>,
}

/// Parameters of the tool that carries out a code action.
#[derive(Debug, Clone)]
pub struct ApplyAssistParams {
    pub file_path: String,
    pub line: u32,
    pub column: u32,
    pub symbol: Option<String>,
    pub assist_id: String,
}

/// Parameters of the tools that take a file.
#[derive(Debug, Clone)]
pub struct FileParams {
    pub file_path: String,
}

/// Parameters of the search for symbols.
#[derive(Debug, Clone)]
pub struct SearchSymbolsParams {
    pub query: String,
    /// Largest number of hits; `default_search_limit()` where none is given.
    pub limit: usize,
}

/// Parameters of the tools that take a cursor.
#[derive(Debug, Clone)]
pub struct CursorParams {
    pub file_path: String,
    pub line: u32,
    pub column: u32,
    pub symbol: Option<String>,
}

/// Parameters of structural search and replace.
#[derive(Debug, Clone)]
pub struct SsrParams {
    pub pattern: String,
    pub context_file: Option<String>,
    pub dry_run: bool,
}

/// Parameters of structural search.
#[derive(Debug, Clone)]
pub struct SsrSearchParams {
    pub pattern: String,
    pub context_file: Option<String>,
}

/// The number of hits of a search for symbols where none is asked for.
pub fn default_search_limit() -> (limit: usize)
    ensures
        limit == 50,
{
    50
}

impl CursorParams {
    /// The cursor that the parameters name.
    pub fn cursor(&self) -> (cursor: CursorCoordinates)
        ensures
            cursor == (CursorCoordinates {
                file_path: self.file_path,
                line: self.line,
                column: self.column,
                symbol: self.symbol,
            }),
    {
        cursor_at(&self.file_path, self.line, self.column, &self.symbol)
    }
}

impl RenameParams {
    /// The cursor that the parameters name.
    pub fn cursor(&self) -> (cursor: CursorCoordinates)
        ensures
            cursor == (CursorCoordinates {
                file_path: self.file_path,
                line: self.line,
                column: self.column,
                symbol: self.symbol,
            }),
    {
        cursor_at(&self.file_path, self.line, self.column, &self.symbol)
    }
}

impl ApplyAssistParams {
    /// The cursor that the parameters name.
    pub fn cursor(&self) -> (cursor: CursorCoordinates)
        ensures
            cursor == (CursorCoordinates {
                file_path: self.file_path,
                line: self.line,
                column: self.column,
                symbol: self.symbol,
            }),
    {
        cursor_at(&self.file_path, self.line, self.column, &self.symbol)
    }
}

} // verus!
