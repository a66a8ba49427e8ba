//! Annotation tool kinds: keyboard shortcuts and display names.
use vstd::prelude::*;
use crate::text::{ascii_lower, str_eq};

verus! {

/// Tool type for annotation.
#[derive(Debug, Clone, Copy, PartialEq, Eq, Structural)]
pub enum ToolType {
    Arrow,
    Brush,
    Line,
    Rectangle,
    Ellipse,
    Text,
    Blur,
    Highlight,
}

impl Default for ToolType {
    /// The arrow is the default tool.
    fn default() -> (t: Self)
        ensures
            t == ToolType::Arrow,
    {
        ToolType::Arrow
    }
}

/// The keyboard shortcut of each tool.
pub open spec fn spec_shortcut(t: ToolType) -> char {
    match t {
        ToolType::Brush => 'b',
        ToolType::Line => 'l',
        ToolType::Arrow => 'a',
        ToolType::Rectangle => 'r',
        ToolType::Ellipse => 'e',
        ToolType::Text => 't',
        ToolType::Blur => 'x',
        ToolType::Highlight => 'h',
    }
}

/// The tool whose (lower-case) shortcut is `c`.
pub open spec fn tool_for_shortcut(c: char) -> Option<ToolType> {
    if c == 'b' {
        Some(ToolType::Brush)
    } else if c == 'l' {
        Some(ToolType::Line)
    } else if c == 'a' {
        Some(ToolType::Arrow)
    } else if c == 'r' {
        Some(ToolType::Rectangle)
    } else if c == 'e' {
        Some(ToolType::Ellipse)
    } else if c == 't' {
        Some(ToolType::Text)
    } else if c == 'x' {
        Some(ToolType::Blur)
    } else if c == 'h' {
        Some(ToolType::Highlight)
    } else {
        None
    }
}

/// The display name of each tool.
pub open spec fn spec_name(t: ToolType) -> Seq<char> {
    match t {
        ToolType::Brush => "Brush"@,
        ToolType::Line => "Line"@,
        ToolType::Arrow => "Arrow"@,
        ToolType::Rectangle => "Rectangle"@,
        ToolType::Ellipse => "Ellipse"@,
        ToolType::Text => "Text"@,
        ToolType::Blur => "Blur"@,
        ToolType::Highlight => "Highlight"@,
    }
}

/// The tool whose display name is exactly `s`.
pub open spec fn tool_for_name(s: Seq<char>) -> Option<ToolType> {
    if s == "Brush"@ {
        Some(ToolType::Brush)
    } else if s == "Line"@ {
        Some(ToolType::Line)
    } else if s == "Arrow"@ {
        Some(ToolType::Arrow)
    } else if s == "Rectangle"@ {
        Some(ToolType::Rectangle)
    } else if s == "Ellipse"@ {
        Some(ToolType::Ellipse)
    } else if s == "Text"@ {
        Some(ToolType::Text)
    } else if s == "Blur"@ {
        Some(ToolType::Blur)
    } else if s == "Highlight"@ {
        Some(ToolType::Highlight)
    } else {
        None
    }
}

/// All tool types in toolbar order.
pub open spec fn spec_all() -> Seq<ToolType> {
    seq![
        ToolType::Brush,
        ToolType::Line,
        ToolType::Arrow,
        ToolType::Rectangle,
        ToolType::Ellipse,
        ToolType::Text,
        ToolType::Blur,
        ToolType::Highlight,
    ]
}

impl ToolType {
    /// Get the keyboard shortcut for this tool.
    pub fn shortcut(&self) -> (c: char)
        ensures
            c == spec_shortcut(*self),
    {
        match self {
            ToolType::Brush => 'b',
            ToolType::Line => 'l',
            ToolType::Arrow => 'a',
            ToolType::Rectangle => 'r',
            ToolType::Ellipse => 'e',
            ToolType::Text => 't',
            ToolType::Blur => 'x',
            ToolType::Highlight => 'h',
        }
    }

    /// Get tool type from keyboard shortcut (either case).
    pub fn from_shortcut(c: char) -> (r: Option<Self>)
        ensures
            r == tool_for_shortcut(ascii_lower(c)),
    {
        match c {
            'b' | 'B' => Some(ToolType::Brush),
            'l' | 'L' => Some(ToolType::Line),
            'a' | 'A' => Some(ToolType::Arrow),
            'r' | 'R' => Some(ToolType::Rectangle),
            'e' | 'E' => Some(ToolType::Ellipse),
            't' | 'T' => Some(ToolType::Text),
            'x' | 'X' => Some(ToolType::Blur),
            'h' | 'H' => Some(ToolType::Highlight),
            _ => None,
        }
    }

    /// Get tool type from name string.
    pub fn from_name(name: &str) -> (r: Option<Self>)
        ensures
            r == tool_for_name(name@),
    {
        if str_eq(name, "Brush") {
            Some(ToolType::Brush)
        } else if str_eq(name, "Line") {
            Some(ToolType::Line)
        } else if str_eq(name, "Arrow") {
            Some(ToolType::Arrow)
        } else if str_eq(name, "Rectangle") {
            Some(ToolType::Rectangle)
        } else if str_eq(name, "Ellipse") {
            Some(ToolType::Ellipse)
        } else if str_eq(name, "Text") {
            Some(ToolType::Text)
        } else if str_eq(name, "Blur") {
            Some(ToolType::Blur)
        } else if str_eq(name, "Highlight") {
            Some(ToolType::Highlight)
        } else {
            None
        }
    }

    /// Get display name for this tool.
    pub fn name(&self) -> (s: &'static str)
        ensures
            s@ == spec_name(*self),
    {
        match self {
            ToolType::Brush => "Brush",
            ToolType::Line => "Line",
            ToolType::Arrow => "Arrow",
            ToolType::Rectangle => "Rectangle",
            ToolType::Ellipse => "Ellipse",
            ToolType::Text => "Text",
            ToolType::Blur => "Blur",
            ToolType::Highlight => "Highlight",
        }
    }

    /// Get all tool types in order.
    pub fn all() -> (v: &'static [ToolType])
        ensures
            v@ == spec_all(),
    {
        &[
            ToolType::Brush,
            ToolType::Line,
            ToolType::Arrow,
            ToolType::Rectangle,
            ToolType::Ellipse,
            ToolType::Text,
            ToolType::Blur,
            ToolType::Highlight,
        ]
    }
}

/// A tool's shortcut, in either case, selects that tool again.
pub proof fn lemma_shortcut_round_trip(t: ToolType)
    ensures
        tool_for_shortcut(ascii_lower(spec_shortcut(t))) == Some(t),
        tool_for_shortcut(ascii_lower(((spec_shortcut(t) as u32) - 32) as char)) == Some(t),
{
}

/// A tool's display name selects that tool again.
pub proof fn lemma_name_round_trip(t: ToolType)
    ensures
        tool_for_name(spec_name(t)) == Some(t),
{
    reveal_strlit("Brush");
    reveal_strlit("Line");
    reveal_strlit("Arrow");
    reveal_strlit("Rectangle");
    reveal_strlit("Ellipse");
    reveal_strlit("Text");
    reveal_strlit("Blur");
    reveal_strlit("Highlight");
    assert("Brush"@.len() == 5 && "Brush"@[0] == 'B');
    assert("Line"@.len() == 4 && "Line"@[0] == 'L');
    assert("Arrow"@.len() == 5 && "Arrow"@[0] == 'A');
    assert("Rectangle"@.len() == 9 && "Rectangle"@[0] == 'R');
    assert("Ellipse"@.len() == 7 && "Ellipse"@[0] == 'E');
    assert("Text"@.len() == 4 && "Text"@[0] == 'T');
    assert("Blur"@.len() == 4 && "Blur"@[0] == 'B');
    assert("Highlight"@.len() == 9 && "Highlight"@[0] == 'H');
}

/// The toolbar lists every tool exactly once.
pub proof fn lemma_all_lists_each_tool_once(t: ToolType)
    ensures
        spec_all().contains(t),
        spec_all().len() == 8,
        forall|i: int, j: int| 0 <= i < j < spec_all().len() ==> spec_all()[i] != spec_all()[j],
{
    let s = spec_all();
    match t {
        ToolType::Brush => assert(s[0] == t),
        ToolType::Line => assert(s[1] == t),
        ToolType::Arrow => assert(s[2] == t),
        ToolType::Rectangle => assert(s[3] == t),
        ToolType::Ellipse => assert(s[4] == t),
        ToolType::Text => assert(s[5] == t),
        ToolType::Blur => assert(s[6] == t),
        ToolType::Highlight => assert(s[7] == t),
    }
}

/// The letters that pick the tools: b for the brush, l for a line, a for an
/// arrow, r for a rectangle, e for an ellipse, t for text, x for blur and h
/// for the highlighter; no other letter picks a tool.
pub proof fn lemma_shortcut_letters(c: char)
    ensures
        spec_shortcut(ToolType::Brush) == 'b',
        spec_shortcut(ToolType::Line) == 'l',
        spec_shortcut(ToolType::Arrow) == 'a',
        spec_shortcut(ToolType::Rectangle) == 'r',
        spec_shortcut(ToolType::Ellipse) == 'e',
        spec_shortcut(ToolType::Text) == 't',
        spec_shortcut(ToolType::Blur) == 'x',
        spec_shortcut(ToolType::Highlight) == 'h',
        tool_for_shortcut(c) is Some <==> (c == 'b' || c == 'l' || c == 'a' || c == 'r' || c == 'e'
            || c == 't' || c == 'x' || c == 'h'),
{
}

/// Distinct tools have distinct shortcuts.
pub proof fn lemma_shortcuts_distinct(t: ToolType, u: ToolType)
    requires
        t != u,
    ensures
        spec_shortcut(t) != spec_shortcut(u),
{
}

} // verus!
