//! The texts in which results are shown.

use vstd::prelude::*;
use vstd::string::*;
use crate::entities::{
    AssistInfo, AssistSourceChange, CallerInfo, CompletionItem, DefinitionInfo, DiagnosticFix,
    DiagnosticInfo, FileChange, FileOutlineItem, MacroExpansion, ReferenceInfo, RenameResult,
    SignatureInfo, SymbolAnalysis, SymbolSearchResult, TextEdit, TypeHint,
};
use crate::strings::{decimal, decimal_digits, join, joined};

verus! {

/// `text` without the white space at its start and end, as `str::trim`
/// gives it.
pub uninterp spec fn trimmed(text: Seq<char>) -> Seq<char>;

/// `str::trim`: the text without leading and trailing white space.
#[verifier::external_body]
fn trim(text: &str) -> (inner: &str)
    ensures
        inner@ == trimmed(text@),
{
    text.trim()
}

/// `path:line:column`.
pub open spec fn location(path: Seq<char>, line: u32, column: u32) -> Seq<char> {
    path + ":"@ + decimal_digits(line as nat) + ":"@ + decimal_digits(column as nat)
}

/// Each of `items` between `before` and `after`, one after the other.
pub open spec fn each(items: Seq<Seq<char>>, before: Seq<char>, after: Seq<char>) -> Seq<char>
    decreases items.len(),
{
    if items.len() == 0 {
        Seq::empty()
    } else {
        each(items.drop_last(), before, after) + before + items.last() + after
    }
}

/// `text` where `shown` is set, else nothing.
pub open spec fn when(shown: bool, text: Seq<char>) -> Seq<char> {
    if shown {
        text
    } else {
        Seq::empty()
    }
}

/// `before`, the text of `value` and `after`, or nothing where there is no
/// value.
pub open spec fn with(value: Option<String>, before: Seq<char>, after: Seq<char>) -> Seq<char> {
    match value {
        Some(text) => before + text@ + after,
        None => Seq::empty(),
    }
}

/// Appends `path:line:column`.
fn put_location(out: &mut String, path: &String, line: u32, column: u32)
    ensures
        final(out)@ == old(out)@ + location(path@, line, column),
{
    out.append(path.as_str());
    out.append(":");
    out.append(decimal(line as u64).as_str());
    out.append(":");
    out.append(decimal(column as u64).as_str());
    assert(out@ =~= old(out)@ + location(path@, line, column));
}

/// Appends a number in decimal digits.
fn put_number(out: &mut String, n: usize)
    ensures
        final(out)@ == old(out)@ + decimal_digits(n as nat),
{
    out.append(decimal(n as u64).as_str());
}

/// Appends `before`, the value and `after` where there is a value.
fn put_with(out: &mut String, value: &Option<String>, before: &str, after: &str)
    ensures
        final(out)@ == old(out)@ + with(*value, before@, after@),
{
    match value {
        Some(text) => {
            out.append(before);
            out.append(text.as_str());
            out.append(after);
            assert(out@ =~= old(out)@ + with(*value, before@, after@));
        },
        None => {
            assert(out@ =~= old(out)@ + with(*value, before@, after@));
        },
    }
}

/// Appends each of `items` between `before` and `after`.
fn put_each(out: &mut String, items: &Vec<String>, before: &str, after: &str)
    ensures
        final(out)@ == old(out)@ + each(items@.map_values(|s: String| s@), before@, after@),
{
    let ghost texts = items@.map_values(|s: String| s@);
    let mut i: usize = 0;
    assert(out@ =~= old(out)@ + each(texts.take(0), before@, after@));
    while i < items.len()
        invariant
            i <= items@.len(),
            texts == items@.map_values(|s: String| s@),
            out@ == old(out)@ + each(texts.take(i as int), before@, after@),
        decreases items.len() - i,
    {
        proof {
            assert(texts.take(i + 1).drop_last() =~= texts.take(i as int));
            assert(texts.take(i + 1).last() == items@[i as int]@);
        }
        out.append(before);
        out.append(items[i].as_str());
        out.append(after);
        i = i + 1;
        assert(out@ =~= old(out)@ + each(texts.take(i as int), before@, after@));
    }
    assert(texts.take(i as int) =~= texts);
}

impl TextEdit {
    /// `line:column-end_line:end_column → 'new_text'`.
    pub open spec fn display(self) -> Seq<char> {
        decimal_digits(self.line as nat) + ":"@ + decimal_digits(self.column as nat) + "-"@
            + decimal_digits(self.end_line as nat) + ":"@ + decimal_digits(self.end_column as nat)
            + " → '"@ + self.new_text@ + "'"@
    }

    /// The edit as it is shown.
    pub fn render(&self) -> (text: String)
        ensures
            text@ == self.display(),
    {
        let mut out = decimal(self.line as u64);
        out.append(":");
        out.append(decimal(self.column as u64).as_str());
        out.append("-");
        out.append(decimal(self.end_line as u64).as_str());
        out.append(":");
        out.append(decimal(self.end_column as u64).as_str());
        out.append(" → '");
        out.append(self.new_text.as_str());
        out.append("'");
        assert(out@ =~= self.display());
        out
    }
}

impl FileChange {
    /// The path on a line of its own, then each edit on a line behind
    /// `"  ↳ "`.
    pub open spec fn display(self) -> Seq<char> {
        self.file_path@ + "\n"@ + each(
            self.edits@.map_values(|e: TextEdit| e.display()),
            "  ↳ "@,
            "\n"@,
        )
    }

    /// The change as it is shown.
    pub fn render(&self) -> (text: String)
        ensures
            text@ == self.display(),
    {
        let mut edits: Vec<String> = Vec::new();
        let mut i: usize = 0;
        while i < self.edits.len()
            invariant
                i <= self.edits@.len(),
                edits@.len() == i,
                forall|k: int| 0 <= k < i ==> (#[trigger] edits@[k])@ == self.edits@[k].display(),
            decreases self.edits.len() - i,
        {
            edits.push(self.edits[i].render());
            i = i + 1;
        }
        let mut out = self.file_path.clone();
        out.append("\n");
        put_each(&mut out, &edits, "  ↳ ", "\n");
        proof {
            assert(edits@.map_values(|s: String| s@) =~= self.edits@.map_values(
                |e: TextEdit| e.display(),
            ));
        }
        out
    }
}

/// The texts of file changes as they are shown.
fn rendered_changes(changes: &Vec<FileChange>) -> (texts: Vec<String>)
    ensures
        texts@.map_values(|s: String| s@) == changes@.map_values(|c: FileChange| c.display()),
{
    let mut texts: Vec<String> = Vec::new();
    let mut i: usize = 0;
    while i < changes.len()
        invariant
            i <= changes@.len(),
            texts@.len() == i,
            forall|k: int| 0 <= k < i ==> (#[trigger] texts@[k])@ == changes@[k].display(),
        decreases changes.len() - i,
    {
        texts.push(changes[i].render());
        i = i + 1;
    }
    assert(texts@.map_values(|s: String| s@) =~= changes@.map_values(|c: FileChange| c.display()));
    texts
}

impl RenameResult {
    /// The number of files, an empty line, then each change followed by a
    /// line feed.
    pub open spec fn display(self) -> Seq<char> {
        "Successfully renamed symbol in "@ + decimal_digits(self.file_changes@.len())
            + " file(s):\n\n"@ + each(
            self.file_changes@.map_values(|c: FileChange| c.display()),
            ""@,
            "\n"@,
        )
    }

    /// The result as it is shown.
    pub fn render(&self) -> (text: String)
        ensures
            text@ == self.display(),
    {
        let mut out = "Successfully renamed symbol in ".to_owned();
        put_number(&mut out, self.file_changes.len());
        out.append(" file(s):\n\n");
        let changes = rendered_changes(&self.file_changes);
        put_each(&mut out, &changes, "", "\n");
        out
    }
}

impl TypeHint {
    /// The position, the hover text in a fence, and the types involved.
    pub open spec fn display(self) -> Seq<char> {
        location(self.file_path@, self.line, self.column) + "\n```md\n"@ + self.symbol@
            + "\n```\nRelevant types: "@ + joined(self.canonical_types@, ", "@)
    }

    /// The hint as it is shown.
    pub fn render(&self) -> (text: String)
        ensures
            text@ == self.display(),
    {
        let mut out = String::new();
        put_location(&mut out, &self.file_path, self.line, self.column);
        out.append("\n```md\n");
        out.append(self.symbol.as_str());
        out.append("\n```\nRelevant types: ");
        out.append(join(&self.canonical_types, ", ").as_str());
        assert(out@ =~= self.display());
        out
    }
}

impl DefinitionInfo {
    /// The position, then the source on the next line.
    pub open spec fn display(self) -> Seq<char> {
        location(self.file_path@, self.line, self.column) + "\n"@ + self.content@
    }

    /// The definition as it is shown.
    pub fn render(&self) -> (text: String)
        ensures
            text@ == self.display(),
    {
        let mut out = String::new();
        put_location(&mut out, &self.file_path, self.line, self.column);
        out.append("\n");
        out.append(self.content.as_str());
        assert(out@ =~= self.display());
        out
    }

    /// The definition as a summary lists it: position and name.
    pub open spec fn listed(self) -> Seq<char> {
        location(self.file_path@, self.line, self.column) + " "@ + self.name@
    }

    /// The definition as a summary lists it.
    pub fn render_listed(&self) -> (text: String)
        ensures
            text@ == self.listed(),
    {
        let mut out = String::new();
        put_location(&mut out, &self.file_path, self.line, self.column);
        out.append(" ");
        out.append(self.name.as_str());
        assert(out@ =~= self.listed());
        out
    }
}

impl CompletionItem {
    /// The name, the kind in brackets, and the signature behind a dash.
    pub open spec fn display(self) -> Seq<char> {
        self.name@ + with(self.kind, " ("@, ")"@) + with(self.signature, " - "@, ""@)
    }

    /// The completion as it is shown.
    pub fn render(&self) -> (text: String)
        ensures
            text@ == self.display(),
    {
        let mut out = self.name.clone();
        put_with(&mut out, &self.kind, " (", ")");
        put_with(&mut out, &self.signature, " - ", "");
        out
    }
}

impl ReferenceInfo {
    /// The position, `def` or `ref`, and the line of source without the
    /// white space around it.
    pub open spec fn display(self) -> Seq<char> {
        location(self.file_path@, self.line, self.column) + " ("@ + (if self.is_definition {
            "def"@
        } else {
            "ref"@
        }) + ") - "@ + trimmed(self.content@)
    }

    /// The reference as it is shown.
    pub fn render(&self) -> (text: String)
        ensures
            text@ == self.display(),
    {
        let mut out = String::new();
        put_location(&mut out, &self.file_path, self.line, self.column);
        out.append(" (");
        if self.is_definition {
            out.append("def");
        } else {
            out.append("ref");
        }
        out.append(") - ");
        out.append(trim(self.content.as_str()));
        assert(out@ =~= self.display());
        out
    }
}

impl AssistInfo {
    /// `label (kind): target`.
    pub open spec fn display(self) -> Seq<char> {
        self.label@ + " ("@ + self.kind@ + "): "@ + self.target@
    }

    /// The code action as it is shown.
    pub fn render(&self) -> (text: String)
        ensures
            text@ == self.display(),
    {
        let mut out = self.label.clone();
        out.append(" (");
        out.append(self.kind.as_str());
        out.append("): ");
        out.append(self.target.as_str());
        assert(out@ =~= self.display());
        out
    }
}

impl AssistSourceChange {
    /// `Changes to n files`.
    pub open spec fn display(self) -> Seq<char> {
        "Changes to "@ + decimal_digits(self.file_changes@.len()) + " files"@
    }

    /// The change as it is shown.
    pub fn render(&self) -> (text: String)
        ensures
            text@ == self.display(),
    {
        let mut out = "Changes to ".to_owned();
        put_number(&mut out, self.file_changes.len());
        out.append(" files");
        out
    }
}

impl DiagnosticFix {
    /// The label, then each change on a line of its own.
    pub open spec fn display(self) -> Seq<char> {
        "  fix: "@ + self.label@ + each(
            self.file_changes@.map_values(|c: FileChange| c.display()),
            "\n    "@,
            ""@,
        )
    }

    /// The fix as it is shown.
    pub fn render(&self) -> (text: String)
        ensures
            text@ == self.display(),
    {
        let mut out = "  fix: ".to_owned();
        out.append(self.label.as_str());
        let changes = rendered_changes(&self.file_changes);
        put_each(&mut out, &changes, "\n    ", "");
        out
    }
}

impl DiagnosticInfo {
    /// Severity, position, message and code, then each fix on a line of its
    /// own.
    pub open spec fn display(self) -> Seq<char> {
        "["@ + self.severity@ + "] "@ + location(self.file_path@, self.line, self.column) + ": "@
            + self.message@ + " ("@ + self.code@ + ")"@ + each(
            self.fixes@.map_values(|f: DiagnosticFix| f.display()),
            "\n"@,
            ""@,
        )
    }

    /// The diagnostic as it is shown.
    pub fn render(&self) -> (text: String)
        ensures
            text@ == self.display(),
    {
        let mut fixes: Vec<String> = Vec::new();
        let mut i: usize = 0;
        while i < self.fixes.len()
            invariant
                i <= self.fixes@.len(),
                fixes@.len() == i,
                forall|k: int| 0 <= k < i ==> (#[trigger] fixes@[k])@ == self.fixes@[k].display(),
            decreases self.fixes.len() - i,
        {
            fixes.push(self.fixes[i].render());
            i = i + 1;
        }
        let mut out = "[".to_owned();
        out.append(self.severity.as_str());
        out.append("] ");
        put_location(&mut out, &self.file_path, self.line, self.column);
        out.append(": ");
        out.append(self.message.as_str());
        out.append(" (");
        out.append(self.code.as_str());
        out.append(")");
        let ghost head = out@;
        put_each(&mut out, &fixes, "\n", "");
        proof {
            assert(fixes@.map_values(|s: String| s@) =~= self.fixes@.map_values(
                |f: DiagnosticFix| f.display(),
            ));
            assert(head =~= "["@ + self.severity@ + "] "@ + location(
                self.file_path@,
                self.line,
                self.column,
            ) + ": "@ + self.message@ + " ("@ + self.code@ + ")"@);
        }
        out
    }
}

impl CallerInfo {
    /// The position and the name in brackets.
    pub open spec fn display(self) -> Seq<char> {
        location(self.file_path@, self.line, self.column) + " ("@ + self.name@ + ")"@
    }

    /// The caller as it is shown.
    pub fn render(&self) -> (text: String)
        ensures
            text@ == self.display(),
    {
        let mut out = String::new();
        put_location(&mut out, &self.file_path, self.line, self.column);
        out.append(" (");
        out.append(self.name.as_str());
        out.append(")");
        assert(out@ =~= self.display());
        out
    }
}

/// A headed list of a summary: nothing where there are no items, else the
/// heading with the number of items, and each item on a line behind a dash.
pub open spec fn counted_list(heading: Seq<char>, items: Seq<Seq<char>>) -> Seq<char> {
    when(
        items.len() > 0,
        "\n## "@ + heading + " ("@ + decimal_digits(items.len()) + ")\n"@ + each(
            items,
            "- "@,
            "\n"@,
        ),
    )
}

/// Appends a headed list.
fn put_counted_list(out: &mut String, heading: &str, items: &Vec<String>)
    ensures
        final(out)@ == old(out)@ + counted_list(heading@, items@.map_values(|s: String| s@)),
{
    if items.len() > 0 {
        out.append("\n## ");
        out.append(heading);
        out.append(" (");
        put_number(out, items.len());
        out.append(")\n");
        let ghost head = out@;
        put_each(out, items, "- ", "\n");
        assert(out@ =~= old(out)@ + counted_list(heading@, items@.map_values(|s: String| s@)));
    } else {
        assert(out@ =~= old(out)@ + counted_list(heading@, items@.map_values(|s: String| s@)));
    }
}

/// The texts of callers as they are shown.
fn rendered_callers(callers: &Vec<CallerInfo>) -> (texts: Vec<String>)
    ensures
        texts@.map_values(|s: String| s@) == callers@.map_values(|c: CallerInfo| c.display()),
{
    let mut texts: Vec<String> = Vec::new();
    let mut i: usize = 0;
    while i < callers.len()
        invariant
            i <= callers@.len(),
            texts@.len() == i,
            forall|k: int| 0 <= k < i ==> (#[trigger] texts@[k])@ == callers@[k].display(),
        decreases callers.len() - i,
    {
        texts.push(callers[i].render());
        i = i + 1;
    }
    assert(texts@.map_values(|s: String| s@) =~= callers@.map_values(|c: CallerInfo| c.display()));
    texts
}

impl SymbolAnalysis {
    /// The parts of the summary that have something to show, each under its
    /// heading, and the number of references last.
    pub open spec fn display(self) -> Seq<char> {
        with(self.type_info, "## Type Info\n"@, "\n"@) + when(
            self.canonical_types@.len() > 0,
            "\n## Canonical Types\n"@ + joined(self.canonical_types@, ", "@) + "\n"@,
        ) + when(
            self.definitions@.len() > 0,
            "\n## Definition\n"@ + each(
                self.definitions@.map_values(|d: DefinitionInfo| d.display()),
                ""@,
                "\n"@,
            ),
        ) + counted_list(
            "Implementations"@,
            self.implementations@.map_values(|d: DefinitionInfo| d.listed()),
        ) + counted_list("Callers"@, self.callers@.map_values(|c: CallerInfo| c.display()))
            + counted_list("Callees"@, self.callees@.map_values(|c: CallerInfo| c.display()))
            + "\n## References: "@ + decimal_digits(self.reference_count as nat)
    }

    /// The summary as it is shown.
    pub fn render(&self) -> (text: String)
        ensures
            text@ == self.display(),
    {
        let mut out = String::new();
        put_with(&mut out, &self.type_info, "## Type Info\n", "\n");
        let ghost after_type = out@;
        if self.canonical_types.len() > 0 {
            out.append("\n## Canonical Types\n");
            out.append(join(&self.canonical_types, ", ").as_str());
            out.append("\n");
        }
        let ghost after_types = out@;
        assert(after_types =~= after_type + when(
            self.canonical_types@.len() > 0,
            "\n## Canonical Types\n"@ + joined(self.canonical_types@, ", "@) + "\n"@,
        ));
        let mut definitions: Vec<String> = Vec::new();
        let mut implementations: Vec<String> = Vec::new();
        let mut i: usize = 0;
        while i < self.definitions.len()
            invariant
                i <= self.definitions@.len(),
                definitions@.len() == i,
                forall|k: int|
                    0 <= k < i ==> (#[trigger] definitions@[k])@ == self.definitions@[k].display(),
            decreases self.definitions.len() - i,
        {
            definitions.push(self.definitions[i].render());
            i = i + 1;
        }
        let mut j: usize = 0;
        while j < self.implementations.len()
            invariant
                j <= self.implementations@.len(),
                implementations@.len() == j,
                forall|k: int|
                    0 <= k < j ==> (#[trigger] implementations@[k])@
                        == self.implementations@[k].listed(),
            decreases self.implementations.len() - j,
        {
            implementations.push(self.implementations[j].render_listed());
            j = j + 1;
        }
        proof {
            assert(definitions@.map_values(|s: String| s@) =~= self.definitions@.map_values(
                |d: DefinitionInfo| d.display(),
            ));
            assert(implementations@.map_values(|s: String| s@)
                =~= self.implementations@.map_values(|d: DefinitionInfo| d.listed()));
        }
        if definitions.len() > 0 {
            out.append("\n## Definition\n");
            put_each(&mut out, &definitions, "", "\n");
        }
        let ghost after_definitions = out@;
        assert(after_definitions =~= after_types + when(
            self.definitions@.len() > 0,
            "\n## Definition\n"@ + each(
                self.definitions@.map_values(|d: DefinitionInfo| d.display()),
                ""@,
                "\n"@,
            ),
        ));
        put_counted_list(&mut out, "Implementations", &implementations);
        let callers = rendered_callers(&self.callers);
        put_counted_list(&mut out, "Callers", &callers);
        let callees = rendered_callers(&self.callees);
        put_counted_list(&mut out, "Callees", &callees);
        out.append("\n## References: ");
        put_number(&mut out, self.reference_count);
        assert(out@ =~= self.display());
        out
    }
}

impl FileOutlineItem {
    /// The lines, the kind and the name, then the detail and a mark for a
    /// deprecated item.
    pub open spec fn display(self) -> Seq<char> {
        "L"@ + decimal_digits(self.line as nat) + "-"@ + decimal_digits(self.end_line as nat)
            + " "@ + self.kind@ + " "@ + self.name@ + with(self.detail, " — "@, ""@) + when(
            self.deprecated,
            " [deprecated]"@,
        )
    }

    /// The item as it is shown.
    pub fn render(&self) -> (text: String)
        ensures
            text@ == self.display(),
    {
        let mut out = "L".to_owned();
        out.append(decimal(self.line as u64).as_str());
        out.append("-");
        out.append(decimal(self.end_line as u64).as_str());
        out.append(" ");
        out.append(self.kind.as_str());
        out.append(" ");
        out.append(self.name.as_str());
        let ghost head = out@;
        put_with(&mut out, &self.detail, " — ", "");
        if self.deprecated {
            out.append(" [deprecated]");
        }
        assert(out@ =~= self.display());
        out
    }
}

impl SymbolSearchResult {
    /// The position and the name, then kind, container and description
    /// where there are any.
    pub open spec fn display(self) -> Seq<char> {
        location(self.file_path@, self.line, self.column) + " "@ + self.name@ + with(
            self.kind,
            " ("@,
            ")"@,
        ) + with(self.container, " in "@, ""@) + with(self.description, " — "@, ""@)
    }

    /// The hit as it is shown.
    pub fn render(&self) -> (text: String)
        ensures
            text@ == self.display(),
    {
        let mut out = String::new();
        put_location(&mut out, &self.file_path, self.line, self.column);
        out.append(" ");
        out.append(self.name.as_str());
        put_with(&mut out, &self.kind, " (", ")");
        put_with(&mut out, &self.container, " in ", "");
        put_with(&mut out, &self.description, " — ", "");
        assert(out@ =~= self.display());
        out
    }
}

impl MacroExpansion {
    /// The name, then the expansion in a fence.
    pub open spec fn display(self) -> Seq<char> {
        "Macro: "@ + self.name@ + "\n\n```rust\n"@ + self.expansion@ + "\n```\n"@
    }

    /// The expansion as it is shown.
    pub fn render(&self) -> (text: String)
        ensures
            text@ == self.display(),
    {
        let mut out = "Macro: ".to_owned();
        out.append(self.name.as_str());
        out.append("\n\n```rust\n");
        out.append(self.expansion.as_str());
        out.append("\n```\n");
        assert(out@ =~= self.display());
        out
    }
}

/// The parameters of a signature, each on a line behind a mark: an arrow for
/// the one at `active`, blanks for the others.
pub open spec fn marked_parameters(parameters: Seq<String>, active: Option<usize>) -> Seq<char>
    decreases parameters.len(),
{
    if parameters.len() == 0 {
        Seq::empty()
    } else {
        marked_parameters(parameters.drop_last(), active) + (if active == Some(
            (parameters.len() - 1) as usize,
        ) {
            " →"@
        } else {
            "  "@
        }) + " "@ + parameters.last()@ + "\n"@
    }
}

impl SignatureInfo {
    /// The signature, the parameters with the active one marked, and the
    /// documentation.
    pub open spec fn display(self) -> Seq<char> {
        self.signature@ + "\n"@ + when(
            self.parameters@.len() > 0,
            "\nParameters:\n"@ + marked_parameters(self.parameters@, self.active_parameter),
        ) + with(self.documentation, "\n"@, ""@)
    }

    /// The signature as it is shown.
    pub fn render(&self) -> (text: String)
        ensures
            text@ == self.display(),
    {
        let mut out = self.signature.clone();
        out.append("\n");
        let ghost head = out@;
        if self.parameters.len() > 0 {
            out.append("\nParameters:\n");
            let ghost listed = out@;
            let mut i: usize = 0;
            assert(self.parameters@.take(0) =~= Seq::<String>::empty());
            while i < self.parameters.len()
                invariant
                    i <= self.parameters@.len(),
                    out@ == listed + marked_parameters(
                        self.parameters@.take(i as int),
                        self.active_parameter,
                    ),
                decreases self.parameters.len() - i,
            {
                proof {
                    assert(self.parameters@.take(i + 1).drop_last() =~= self.parameters@.take(
                        i as int,
                    ));
                    assert(self.parameters@.take(i + 1).last() == self.parameters@[i as int]);
                }
                let active = match self.active_parameter {
                    Some(at) => at == i,
                    None => false,
                };
                if active {
                    out.append(" →");
                } else {
                    out.append("  ");
                }
                out.append(" ");
                out.append(self.parameters[i].as_str());
                out.append("\n");
                i = i + 1;
                assert(out@ =~= listed + marked_parameters(
                    self.parameters@.take(i as int),
                    self.active_parameter,
                ));
            }
            assert(self.parameters@.take(i as int) =~= self.parameters@);
        }
        let ghost body = out@;
        assert(body =~= head + when(
            self.parameters@.len() > 0,
            "\nParameters:\n"@ + marked_parameters(self.parameters@, self.active_parameter),
        ));
        put_with(&mut out, &self.documentation, "\n", "");
        out
    }
}

} // verus!
