//! What the queries return: locations, edits and descriptions, with
//! positions as 1-based lines and columns.

use vstd::prelude::*;
use ra_ap_ide_db::SymbolKind;

verus! {

#[verifier::external_type_specification]
#[verifier::external_body]
pub struct ExSymbolKind(SymbolKind);

/// Where a symbol is defined.
#[derive(Debug, Clone)]
pub struct DefinitionInfo {
    /// Path of the file that holds the definition.
    pub file_path: String,
    /// Line on which the definition starts.
    pub line: u32,
    /// Column at which the definition starts.
    pub column: u32,
    /// Line on which the definition ends.
    pub end_line: u32,
    /// Column at which the definition ends.
    pub end_column: u32,
    /// Name of the symbol.
    pub name: String,
    /// Kind of the symbol, as the engine classifies it.
    pub kind: Option<SymbolKind>,
    /// Source text of the definition.
    pub content: String,
    /// Module path of the definition.
    pub module: String,
    /// Documentation of the symbol.
    pub description: Option<String>,
}

/// The files that a rename changes, and how.
#[derive(Debug, Clone)]
pub struct RenameResult {
    /// One entry per changed file.
    pub file_changes: Vec<FileChange>,
}

/// The edits to one file.
#[derive(Debug, Clone)]
pub struct FileChange {
    /// Path of the file.
    pub file_path: String,
    /// Edits in document order: none begins before its predecessor ends.
    pub edits: Vec<TextEdit>,
}

/// Replacement of the text between two positions. The end is exclusive.
#[derive(Debug, Clone)]
pub struct TextEdit {
    /// Line on which the replaced range starts.
    pub line: u32,
    /// Column at which the replaced range starts.
    pub column: u32,
    /// Line on which the replaced range ends.
    pub end_line: u32,
    /// Column at which the replaced range ends.
    pub end_column: u32,
    /// Text that takes the place of the range.
    pub new_text: String,
}

/// What the engine says of the type of a symbol.
#[derive(Debug, Clone)]
pub struct TypeHint {
    pub file_path: String,
    pub line: u32,
    pub column: u32,
    /// The hover text.
    pub symbol: String,
    /// Module paths of the types involved.
    pub canonical_types: Vec<String>,
}

/// One completion candidate.
#[derive(Debug, Clone)]
pub struct CompletionItem {
    pub name: String,
    /// Imports that the candidate needs, joined by `", "`.
    pub required_import: Option<String>,
    pub kind: Option<String>,
    pub signature: Option<String>,
    pub documentation: Option<String>,
    pub deprecated: bool,
}

/// One place at which a symbol is declared or used.
#[derive(Debug, Clone, PartialEq)]
pub struct ReferenceInfo {
    pub file_path: String,
    pub line: u32,
    pub column: u32,
    pub end_line: u32,
    pub end_column: u32,
    pub name: String,
    /// The line of source that holds the reference.
    pub content: String,
    /// Whether this is the declaration.
    pub is_definition: bool,
}

/// A code action that the engine offers.
#[derive(Debug, Clone)]
pub struct AssistInfo {
    pub id: String,
    pub kind: String,
    pub label: String,
    pub target: String,
    pub source_change: Option<AssistSourceChange>,
}

/// What applying a code action changes.
#[derive(Debug, Clone)]
pub struct AssistSourceChange {
    pub file_changes: Vec<FileChange>,
    pub is_snippet: bool,
}

/// A fix that the engine proposes for a diagnostic.
#[derive(Debug, Clone)]
pub struct DiagnosticFix {
    pub label: String,
    pub file_changes: Vec<FileChange>,
}

/// A diagnostic with its fixes.
#[derive(Debug, Clone)]
pub struct DiagnosticInfo {
    pub message: String,
    pub severity: String,
    pub code: String,
    pub file_path: String,
    pub line: u32,
    pub column: u32,
    pub end_line: u32,
    pub end_column: u32,
    pub fixes: Vec<DiagnosticFix>,
}

/// All that is known of one symbol.
#[derive(Debug, Clone)]
pub struct SymbolAnalysis {
    pub type_info: Option<String>,
    pub canonical_types: Vec<String>,
    pub definitions: Vec<DefinitionInfo>,
    pub implementations: Vec<DefinitionInfo>,
    pub callers: Vec<CallerInfo>,
    pub callees: Vec<CallerInfo>,
    pub reference_count: usize,
}

/// A function that calls, or is called by, the symbol.
#[derive(Debug, Clone)]
pub struct CallerInfo {
    pub name: String,
    pub file_path: String,
    pub line: u32,
    pub column: u32,
}

/// One item of the outline of a file.
#[derive(Debug, Clone)]
pub struct FileOutlineItem {
    pub name: String,
    pub kind: String,
    pub detail: Option<String>,
    pub line: u32,
    pub end_line: u32,
    /// Index, in the outline, of the item that encloses this one.
    pub parent_idx: Option<usize>,
    pub deprecated: bool,
}

/// One hit of a search for symbols.
#[derive(Debug, Clone)]
pub struct SymbolSearchResult {
    pub name: String,
    pub kind: Option<String>,
    pub file_path: String,
    pub line: u32,
    pub column: u32,
    pub container: Option<String>,
    pub description: Option<String>,
}

/// The expansion of a macro call.
#[derive(Debug, Clone)]
pub struct MacroExpansion {
    pub name: String,
    pub expansion: String,
}

/// The signature of the function called at a position.
#[derive(Debug, Clone)]
pub struct SignatureInfo {
    pub signature: String,
    pub parameters: Vec<String>,
    pub active_parameter: Option<usize>,
    pub documentation: Option<String>,
}

/// One match of a structural search. Where the place of a match could not
/// be found, the path is empty and the positions are 0.
#[derive(Debug, Clone)]
pub struct SsrMatch {
    pub file_path: String,
    pub line: u32,
    pub column: u32,
    pub end_line: u32,
    pub end_column: u32,
    pub matched_text: String,
    /// What replaces the match, in a search with replacement.
    pub replacement: Option<String>,
}

/// Outcome of a structural search with replacement.
#[derive(Debug, Clone)]
pub struct SsrResult {
    pub matches: Vec<SsrMatch>,
    /// The edits that put the template in place of the matches.
    pub file_changes: Option<Vec<FileChange>>,
    /// The edits are to be shown, not written.
    pub dry_run: bool,
}

} // verus!
