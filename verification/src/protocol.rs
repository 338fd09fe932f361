//! The editor-facing values that the library produces: positions, ranges,
//! diagnostics, completion items and hovers (the server maps them to the
//! language-server protocol's own types).
use vstd::prelude::*;

verus! {

/// A zero-based line and a byte offset within it.
#[derive(Clone, Copy, Debug, PartialEq, Eq, Structural)]
pub struct Position {
    pub line: u32,
    pub character: u32,
}

#[derive(Clone, Copy, Debug, PartialEq, Eq, Structural)]
pub struct Range {
    pub start: Position,
    pub end: Position,
}

pub open spec fn pos(line: int, character: int) -> Position {
    Position { line: line as u32, character: character as u32 }
}

/// The range from `start` to `end` on one line (each value truncated to `u32`,
/// as `usize as u32` does).
pub open spec fn line_range(line: int, start: int, end: int) -> Range {
    Range { start: pos(line, start), end: pos(line, end) }
}

/// An error reported on a range of the document.
#[derive(Debug, Clone)]
pub struct Diagnostic {
    pub range: Range,
    pub message: String,
}

pub struct DiagnosticSpec {
    pub range: Range,
    pub message: Seq<char>,
}

impl View for Diagnostic {
    type V = DiagnosticSpec;

    open spec fn view(&self) -> DiagnosticSpec {
        DiagnosticSpec { range: self.range, message: self.message@ }
    }
}

#[derive(Clone, Copy, Debug, PartialEq, Eq, Structural)]
pub enum CompletionItemKind {
    Property,
    Class,
    Field,
    Function,
    Variable,
    Value,
    EnumMember,
}

/// A completion proposal that replaces `edit_range` with `new_text`.
#[derive(Debug, Clone)]
pub struct CompletionItem {
    pub label: String,
    pub kind: CompletionItemKind,
    pub edit_range: Range,
    pub new_text: String,
    pub snippet: bool,
    pub detail: Option<String>,
    pub documentation: Option<String>,
    pub deprecated: Option<bool>,
    pub sort_text: Option<String>,
}

pub struct CompletionItemSpec {
    pub label: Seq<char>,
    pub kind: CompletionItemKind,
    pub edit_range: Range,
    pub new_text: Seq<char>,
    pub snippet: bool,
    pub detail: Option<Seq<char>>,
    pub documentation: Option<Seq<char>>,
    pub deprecated: Option<bool>,
    pub sort_text: Option<Seq<char>>,
}

pub open spec fn opt_view(o: Option<String>) -> Option<Seq<char>> {
    match o {
        Some(s) => Some(s@),
        None => None,
    }
}

impl View for CompletionItem {
    type V = CompletionItemSpec;

    open spec fn view(&self) -> CompletionItemSpec {
        CompletionItemSpec {
            label: self.label@,
            kind: self.kind,
            edit_range: self.edit_range,
            new_text: self.new_text@,
            snippet: self.snippet,
            detail: opt_view(self.detail),
            documentation: opt_view(self.documentation),
            deprecated: self.deprecated,
            sort_text: opt_view(self.sort_text),
        }
    }
}

pub open spec fn items_view(v: Seq<CompletionItem>) -> Seq<CompletionItemSpec> {
    v.map_values(|i: CompletionItem| i@)
}

/// Markdown shown for the hovered range.
#[derive(Debug, Clone)]
pub struct Hover {
    pub contents: String,
    pub range: Range,
}

pub struct HoverSpec {
    pub contents: Seq<char>,
    pub range: Range,
}

impl View for Hover {
    type V = HoverSpec;

    open spec fn view(&self) -> HoverSpec {
        HoverSpec { contents: self.contents@, range: self.range }
    }
}

impl Position {
    pub fn new(line: u32, character: u32) -> (r: Position)
        ensures
            r == (Position { line, character }),
    {
        Position { line, character }
    }
}

impl Range {
    pub fn new(start: Position, end: Position) -> (r: Range)
        ensures
            r == (Range { start, end }),
    {
        Range { start, end }
    }
}

/// `line_range` computed: each value cast to `u32`.
pub fn make_line_range(line: usize, start: usize, end: usize) -> (r: Range)
    ensures
        r == line_range(line as int, start as int, end as int),
{
    Range {
        start: Position { line: line as u32, character: start as u32 },
        end: Position { line: line as u32, character: end as u32 },
    }
}

} // verus!
