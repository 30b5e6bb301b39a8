//! From the engine's descriptions to the values that the queries return.

use vstd::prelude::*;
use vstd::string::*;
use vstd::utf8::{encode_utf8, is_char_boundary};
use ra_ap_ide::LineIndex;
use crate::changes::ByteEdit;
use crate::engine::{NavTarget, RawAssist, RawCompletion, RawMoniker, RawNode};
use crate::entities::{
    AssistInfo, CallerInfo, CompletionItem, DefinitionInfo, FileOutlineItem, ReferenceInfo,
    SsrMatch, SymbolSearchResult,
};
use crate::position::{
    from_engine, lemma_positions_in_order, not_before, table, LineTable,
};
use crate::strings::{decimal, decimal_digits, join, joined};
use crate::text::{slice_chars, slice_text};

verus! {

/// The 1-based line and column of `offset`, or zeros where the offset has
/// no position.
pub open spec fn place_of(t: LineTable, offset: u32) -> (u32, u32) {
    match t.position_of(offset) {
        Some(position) => position,
        None => (0, 0),
    }
}

/// The 1-based line and column of `offset`, or zeros where the offset has
/// no position.
pub fn place(index: &LineIndex, offset: u32) -> (position: (u32, u32))
    requires
        table(*index).wf(),
    ensures
        position == place_of(table(*index), offset),
{
    match from_engine(index, offset) {
        Some(position) => position,
        None => (0, 0),
    }
}

/// The values that are there, in their order.
pub open spec fn kept<T>(given: Seq<Option<T>>) -> Seq<T>
    decreases given.len(),
{
    if given.len() == 0 {
        Seq::empty()
    } else {
        match given.last() {
            Some(value) => kept(given.drop_last()).push(value),
            None => kept(given.drop_last()),
        }
    }
}

/// The values that are there, in their order.
pub fn present<T>(given: Vec<Option<T>>) -> (found: Vec<T>)
    ensures
        found@ == kept(given@),
{
    let ghost all = given@;
    let mut rest = given;
    let mut turned: Vec<T> = Vec::new();
    // Values are taken from the back, so they come out turned around and
    // are turned back below.
    while rest.len() > 0
        invariant
            kept(all) == kept(rest@) + turned@.reverse(),
        decreases rest.len(),
    {
        let ghost before = rest@;
        let ghost seen = turned@;
        let last = rest.pop().unwrap();
        proof {
            assert(rest@ =~= before.drop_last());
        }
        match last {
            Some(value) => {
                turned.push(value);
                proof {
                    assert(turned@.reverse() =~= seq![value] + seen.reverse());
                    assert(kept(before) + seen.reverse() =~= kept(rest@) + turned@.reverse());
                }
            },
            None => {},
        }
    }
    let mut found: Vec<T> = Vec::new();
    proof {
        assert(kept(rest@) =~= Seq::<T>::empty());
        assert(kept(all) =~= found@ + turned@.reverse());
    }
    while turned.len() > 0
        invariant
            kept(all) == found@ + turned@.reverse(),
        decreases turned.len(),
    {
        let ghost before = turned@;
        let ghost listed = found@;
        let last = turned.pop().unwrap();
        found.push(last);
        proof {
            assert(turned@ =~= before.drop_last());
            assert(before.reverse() =~= seq![last] + turned@.reverse());
            assert(listed + before.reverse() =~= found@ + turned@.reverse());
        }
    }
    proof {
        assert(found@ + turned@.reverse() =~= found@);
    }
    found
}

/// A copy of an optional string.
pub fn copy_text(text: &Option<String>) -> (copy: Option<String>)
    ensures
        copy == *text,
{
    match text {
        Some(s) => Some(s.clone()),
        None => None,
    }
}

/// `item` is the completion that the engine's description `raw` amounts
/// to: the imports it needs are joined by `", "`, and are `None` where it
/// needs none.
pub open spec fn completes(item: CompletionItem, raw: RawCompletion) -> bool {
    &&& item.name == raw.name
    &&& item.kind == Some(raw.kind)
    &&& item.signature == raw.detail
    &&& item.documentation == raw.documentation
    &&& item.deprecated == raw.deprecated
    &&& raw.imports@.len() == 0 ==> item.required_import is None
    &&& raw.imports@.len() > 0 ==> (item.required_import matches Some(s) && s@ == joined(
        raw.imports@,
        ", "@,
    ))
}

/// The completion that the engine's description amounts to.
pub fn completion_from(raw: RawCompletion) -> (item: CompletionItem)
    ensures
        completes(item, raw),
{
    let required_import = if raw.imports.len() == 0 {
        None
    } else {
        Some(join(&raw.imports, ", "))
    };
    CompletionItem {
        name: raw.name,
        required_import,
        kind: Some(raw.kind),
        signature: raw.detail,
        documentation: raw.documentation,
        deprecated: raw.deprecated,
    }
}

/// The text of `container`, or `fallback` where there is none.
pub open spec fn container_or(container: Option<String>, fallback: Seq<char>) -> Seq<char> {
    match container {
        Some(name) => name@,
        None => fallback,
    }
}

/// What the engine's answer to the question for the names of a symbol
/// comes to: the first name; `Nameless` where it found a symbol and gives
/// no name; `Unavailable` where it found no symbol or gave up.
pub open spec fn first_moniker_of(names: Result<Option<Vec<RawMoniker>>, String>) -> RawMoniker {
    match names {
        Ok(Some(list)) => if list@.len() == 0 {
            RawMoniker::Nameless
        } else {
            list@[0]
        },
        _ => RawMoniker::Unavailable,
    }
}

/// The name to go by among those that the engine gave.
pub fn first_moniker(names: Result<Option<Vec<RawMoniker>>, String>) -> (name: RawMoniker)
    ensures
        name == first_moniker_of(names),
{
    match names {
        Ok(Some(list)) => {
            let mut list = list;
            if list.len() == 0 {
                RawMoniker::Nameless
            } else {
                list.swap_remove(0)
            }
        },
        _ => RawMoniker::Unavailable,
    }
}

/// The module path of a definition: for a symbol with a unique name its
/// crate and the names on the path to it, joined by `"::"`; else the name of
/// what contains the symbol, or `"local"` for a local symbol without
/// container and `"unknown"` for any other.
pub open spec fn module_name_of(moniker: RawMoniker, container: Option<String>) -> Seq<char> {
    match moniker {
        RawMoniker::Global { crate_name, parts } => if parts@.len() == 0 {
            crate_name@
        } else {
            crate_name@ + "::"@ + joined(parts@, "::"@)
        },
        RawMoniker::Local => container_or(container, "local"@),
        RawMoniker::Nameless => container_or(container, "unknown"@),
        RawMoniker::Unavailable => container_or(container, "unknown"@),
    }
}

/// The module path of a definition.
pub fn module_name(moniker: &RawMoniker, container: &Option<String>) -> (path: String)
    ensures
        path@ == module_name_of(*moniker, *container),
{
    match moniker {
        RawMoniker::Global { crate_name, parts } => {
            if parts.len() == 0 {
                crate_name.clone()
            } else {
                let mut path = crate_name.clone();
                path.append("::");
                let rest = join(parts, "::");
                path.append(rest.as_str());
                path
            }
        },
        RawMoniker::Local => match container {
            Some(name) => name.clone(),
            None => "local".to_owned(),
        },
        RawMoniker::Nameless => match container {
            Some(name) => name.clone(),
            None => "unknown".to_owned(),
        },
        RawMoniker::Unavailable => match container {
            Some(name) => name.clone(),
            None => "unknown".to_owned(),
        },
    }
}

/// What stands for the source of a definition whose range does not lie in
/// the text.
pub open spec fn invalid_range_text(start: u32, end: u32) -> Seq<char> {
    "// Content extraction failed: invalid range "@ + decimal_digits(start as nat) + ".."@
        + decimal_digits(end as nat)
}

/// The source of a definition: the text from `start` up to `end`; a remark
/// in its place where the range does not lie in the text or the text could
/// not be had.
pub open spec fn definition_content_of(text: Result<String, String>, start: u32, end: u32) -> Seq<
    char,
> {
    match text {
        Err(_) => "// Content extraction failed: could not read source"@,
        Ok(source) => if start < encode_utf8(source@).len() && start <= end <= encode_utf8(
            source@,
        ).len() && is_char_boundary(encode_utf8(source@), start as int) && is_char_boundary(
            encode_utf8(source@),
            end as int,
        ) {
            slice_chars(encode_utf8(source@), start as int, end as int)
        } else {
            invalid_range_text(start, end)
        },
    }
}

/// The source of a definition.
pub fn definition_content(text: &Result<String, String>, start: u32, end: u32) -> (content: String)
    ensures
        content@ == definition_content_of(*text, start, end),
{
    match text {
        Err(_) => "// Content extraction failed: could not read source".to_owned(),
        Ok(source) => {
            let length = source.as_str().as_bytes().len();
            let part = if (start as usize) < length {
                slice_text(source.as_str(), start as usize, end as usize)
            } else {
                None
            };
            match part {
                Some(part) => part,
                None => {
                    let mut remark = "// Content extraction failed: invalid range ".to_owned();
                    let from = decimal(start as u64);
                    remark.append(from.as_str());
                    remark.append("..");
                    let to = decimal(end as u64);
                    remark.append(to.as_str());
                    remark
                },
            }
        },
    }
}

/// The source of an item for a summary: the text from `start` up to `end`,
/// or nothing where the range does not begin in the text, does not lie in
/// it, cuts a character, or the text could not be had.
pub open spec fn plain_content_of(text: Result<String, String>, start: u32, end: u32) -> Seq<char> {
    match text {
        Err(_) => Seq::empty(),
        Ok(source) => if start < encode_utf8(source@).len() && start <= end <= encode_utf8(
            source@,
        ).len() && is_char_boundary(encode_utf8(source@), start as int) && is_char_boundary(
            encode_utf8(source@),
            end as int,
        ) {
            slice_chars(encode_utf8(source@), start as int, end as int)
        } else {
            Seq::empty()
        },
    }
}

/// The source of an item for a summary.
pub fn plain_content(text: &Result<String, String>, start: u32, end: u32) -> (content: String)
    ensures
        content@ == plain_content_of(*text, start, end),
{
    match text {
        Err(_) => String::new(),
        Ok(source) => {
            let length = source.as_str().as_bytes().len();
            if (start as usize) < length {
                match slice_text(source.as_str(), start as usize, end as usize) {
                    Some(part) => part,
                    None => String::new(),
                }
            } else {
                String::new()
            }
        },
    }
}

/// The definition that a place amounts to, in the file with the table `t`.
pub open spec fn definition_of(
    t: LineTable,
    nav: NavTarget,
    file_path: String,
    module: String,
    content: String,
) -> DefinitionInfo {
    DefinitionInfo {
        file_path,
        line: place_of(t, nav.focus_start).0,
        column: place_of(t, nav.focus_start).1,
        end_line: place_of(t, nav.focus_end).0,
        end_column: place_of(t, nav.focus_end).1,
        name: nav.name,
        kind: nav.kind,
        content,
        module,
        description: nav.description,
    }
}

/// The definition that a place amounts to.
pub fn definition_from(
    index: &LineIndex,
    nav: &NavTarget,
    file_path: String,
    module: String,
    content: String,
) -> (definition: DefinitionInfo)
    requires
        table(*index).wf(),
    ensures
        definition == definition_of(table(*index), *nav, file_path, module, content),
{
    let (line, column) = place(index, nav.focus_start);
    let (end_line, end_column) = place(index, nav.focus_end);
    DefinitionInfo {
        file_path,
        line,
        column,
        end_line,
        end_column,
        name: nav.name.clone(),
        kind: nav.kind,
        content,
        module,
        description: copy_text(&nav.description),
    }
}

/// The reference at the bytes from `start` up to `end` of the file with
/// the table `t`.
pub open spec fn reference_of(
    t: LineTable,
    file_path: String,
    start: u32,
    end: u32,
    name: String,
    content: String,
    is_definition: bool,
) -> ReferenceInfo {
    ReferenceInfo {
        file_path,
        line: place_of(t, start).0,
        column: place_of(t, start).1,
        end_line: place_of(t, end).0,
        end_column: place_of(t, end).1,
        name,
        content,
        is_definition,
    }
}

/// The reference at the bytes from `start` up to `end`.
pub fn reference_from(
    index: &LineIndex,
    file_path: String,
    start: u32,
    end: u32,
    name: String,
    content: String,
    is_definition: bool,
) -> (reference: ReferenceInfo)
    requires
        table(*index).wf(),
    ensures
        reference == reference_of(table(*index), file_path, start, end, name, content, is_definition),
{
    let (line, column) = place(index, start);
    let (end_line, end_column) = place(index, end);
    ReferenceInfo { file_path, line, column, end_line, end_column, name, content, is_definition }
}

/// The code action that the engine's description amounts to, without its
/// edits: its kind is its group, or `"refactor"` where it has none.
pub fn assist_info_from(raw: &RawAssist) -> (info: AssistInfo)
    ensures
        info.id == raw.id,
        info.label == raw.label,
        info.target == raw.target,
        info.source_change is None,
        info.kind@ == container_or(raw.group, "refactor"@),
{
    let kind = match &raw.group {
        Some(group) => group.clone(),
        None => "refactor".to_owned(),
    };
    AssistInfo {
        id: raw.id.clone(),
        kind,
        label: raw.label.clone(),
        target: raw.target.clone(),
        source_change: None,
    }
}

/// The item of an outline that the engine's description amounts to.
pub fn outline_item_from(index: &LineIndex, raw: RawNode) -> (item: FileOutlineItem)
    requires
        table(*index).wf(),
    ensures
        item.name == raw.label,
        item.kind == raw.kind,
        item.detail == raw.detail,
        item.line == place_of(table(*index), raw.start).0,
        item.end_line == place_of(table(*index), raw.end).0,
        item.parent_idx == raw.parent,
        item.deprecated == raw.deprecated,
{
    let (line, _) = place(index, raw.start);
    let (end_line, _) = place(index, raw.end);
    FileOutlineItem {
        name: raw.label,
        kind: raw.kind,
        detail: raw.detail,
        line,
        end_line,
        parent_idx: raw.parent,
        deprecated: raw.deprecated,
    }
}

/// The hit of a search that a place amounts to; `kind` is the name of the
/// kind of the symbol.
pub fn search_result_from(index: &LineIndex, nav: &NavTarget, file_path: String, kind: Option<String>) -> (hit:
    SymbolSearchResult)
    requires
        table(*index).wf(),
    ensures
        hit.name == nav.name,
        hit.kind == kind,
        hit.file_path == file_path,
        (hit.line, hit.column) == place_of(table(*index), nav.focus_start),
        hit.container == nav.container,
        hit.description == nav.description,
{
    let (line, column) = place(index, nav.focus_start);
    SymbolSearchResult {
        name: nav.name.clone(),
        kind,
        file_path,
        line,
        column,
        container: copy_text(&nav.container),
        description: copy_text(&nav.description),
    }
}

/// The caller or callee that a place amounts to: with the path `"unknown"`
/// where the file has none, and at line and column 0 where its table of
/// lines could not be had.
pub fn caller_from(nav: &NavTarget, file_path: Option<String>, index: Option<&LineIndex>) -> (caller:
    CallerInfo)
    requires
        index matches Some(i) ==> table(*i).wf(),
    ensures
        caller.name == nav.name,
        caller.file_path@ == container_or(file_path, "unknown"@),
        (caller.line, caller.column) == match index {
            Some(i) => place_of(table(*i), nav.focus_start),
            None => (0u32, 0u32),
        },
{
    let file_path = match file_path {
        Some(path) => path,
        None => "unknown".to_owned(),
    };
    let (line, column) = match index {
        Some(index) => place(index, nav.focus_start),
        None => (0, 0),
    };
    CallerInfo { name: nav.name.clone(), file_path, line, column }
}

/// The text that a match of a structural search is reported with: the text
/// of the file at the match; where that could not be had the text that the
/// engine reports for the match; else `"<unknown>"`.
pub open spec fn matched_text_of(in_file: Option<String>, reported: Option<String>) -> Seq<char> {
    match in_file {
        Some(text) => text@,
        None => container_or(reported, "<unknown>"@),
    }
}

/// Both ends of a range have a position in the text with the table `t`.
pub open spec fn placed(t: LineTable, start: u32, end: u32) -> bool {
    t.position_of(start) is Some && t.position_of(end) is Some
}

/// A match has one of two forms: with a place, all of whose lines and
/// columns are 1 or more; or without, with an empty path and zeros.
pub open spec fn match_formed(found: SsrMatch) -> bool {
    ||| found.line >= 1 && found.column >= 1 && found.end_line >= 1 && found.end_column >= 1
    ||| found.file_path@.len() == 0 && found.line == 0 && found.column == 0 && found.end_line == 0
        && found.end_column == 0
}

/// A match does not end before it begins.
pub open spec fn match_in_order(found: SsrMatch) -> bool {
    not_before((found.line, found.column), (found.end_line, found.end_column))
}

/// The match of a structural search at the range of `edit`. Where an end of
/// the range has no position in the text the match is without place: the
/// path is empty and lines and columns are 0.
pub fn ssr_match_from(
    index: &LineIndex,
    file_path: String,
    edit: &ByteEdit,
    in_file: Option<String>,
    reported: Option<String>,
    with_replacement: bool,
) -> (found: SsrMatch)
    requires
        table(*index).wf(),
    ensures
        match_formed(found),
        edit.start <= edit.end ==> match_in_order(found),
        found.file_path@ == if placed(table(*index), edit.start, edit.end) {
            file_path@
        } else {
            Seq::<char>::empty()
        },
        (found.line, found.column) == if placed(table(*index), edit.start, edit.end) {
            place_of(table(*index), edit.start)
        } else {
            (0u32, 0u32)
        },
        (found.end_line, found.end_column) == if placed(table(*index), edit.start, edit.end) {
            place_of(table(*index), edit.end)
        } else {
            (0u32, 0u32)
        },
        found.matched_text@ == matched_text_of(in_file, reported),
        found.replacement == if with_replacement {
            Some(edit.insert)
        } else {
            None::<String>
        },
{
    let matched_text = match in_file {
        Some(text) => text,
        None => match reported {
            Some(text) => text,
            None => "<unknown>".to_owned(),
        },
    };
    let replacement = if with_replacement {
        Some(edit.insert.clone())
    } else {
        None
    };
    proof {
        if edit.start <= edit.end && placed(table(*index), edit.start, edit.end) {
            lemma_positions_in_order(table(*index), edit.start, edit.end);
        }
    }
    match (from_engine(index, edit.start), from_engine(index, edit.end)) {
        (Some((line, column)), Some((end_line, end_column))) => SsrMatch {
            file_path,
            line,
            column,
            end_line,
            end_column,
            matched_text,
            replacement,
        },
        _ => SsrMatch {
            file_path: String::new(),
            line: 0,
            column: 0,
            end_line: 0,
            end_column: 0,
            matched_text,
            replacement,
        },
    }
}

/// A match of a structural search whose place could not be found: an empty
/// path and zeros.
pub fn ssr_match_without_place(text: String) -> (found: SsrMatch)
    ensures
        match_formed(found),
        match_in_order(found),
        found.file_path@.len() == 0,
        found.line == 0 && found.column == 0 && found.end_line == 0 && found.end_column == 0,
        found.matched_text == text,
        found.replacement is None,
{
    SsrMatch {
        file_path: String::new(),
        line: 0,
        column: 0,
        end_line: 0,
        end_column: 0,
        matched_text: text,
        replacement: None,
    }
}

} // verus!
