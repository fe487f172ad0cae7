//! The renderable content of a row: styled spans grouped into lines.
//!
//! The viewport engine itself never interprets a span's style; it only
//! carries styles through to the renderer and measures span widths.

use vstd::prelude::*;

verus! {

/// A terminal color, carried through to the renderer unchanged.
#[derive(Clone, Copy, Debug, PartialEq, Eq)]
pub enum StyleColor {
    Reset,
    Black,
    Red,
    Green,
    Yellow,
    Blue,
    Magenta,
    Cyan,
    Gray,
    DarkGray,
    LightRed,
    LightGreen,
    LightYellow,
    LightBlue,
    LightMagenta,
    LightCyan,
    White,
    Rgb(u8, u8, u8),
    Indexed(u8),
}

/// The style of a single span. The engine never reads these fields; they
/// travel with the span into the rendered output.
#[derive(Clone, Copy, Debug, PartialEq, Eq)]
pub struct SpanStyle {
    pub fg: Option<StyleColor>,
    pub bg: Option<StyleColor>,
    pub bold: bool,
    pub dim: bool,
}

impl SpanStyle {
    /// The default style: no colors, no emphasis.
    pub fn plain() -> (s: SpanStyle)
        ensures
            s == (SpanStyle { fg: None, bg: None, bold: false, dim: false }),
    {
        SpanStyle { fg: None, bg: None, bold: false, dim: false }
    }
}

/// The display width, in terminal columns, of a piece of text.
pub uninterp spec fn width_of(s: Seq<char>) -> usize;

/// Relies on `ratatui::text::Span::width`: the display width of a span is a
/// function of its text content alone, and empty content has width zero.
#[verifier::external_body]
fn measured_width(s: &str) -> (r: usize)
    ensures
        r == width_of(s@),
        s@.len() == 0 ==> r == 0,
{
    ratatui::text::Span::raw(s).width()
}

/// A run of text rendered in one style.
#[derive(Clone, Debug, PartialEq, Eq)]
pub struct DisplaySpan {
    pub text: String,
    /// The display width of `text`, measured once at construction.
    pub width: usize,
    pub style: SpanStyle,
}

impl DisplaySpan {
    pub fn new(text: String, style: SpanStyle) -> (s: DisplaySpan)
        ensures
            s.text == text,
            s.style == style,
            s.width == width_of(text@),
            text@.len() == 0 ==> s.width == 0,
    {
        let width = measured_width(text.as_str());
        DisplaySpan { text, width, style }
    }
}

/// One rendered line of a row: a sequence of spans drawn left to right.
#[derive(Clone, Debug, PartialEq, Eq)]
pub struct DisplayLine {
    pub spans: Vec<DisplaySpan>,
}

/// Whether any span of the line has nonzero display width.
pub open spec fn line_has_content(l: DisplayLine) -> bool {
    exists|i: int| 0 <= i < l.spans@.len() && l.spans@[i].width > 0
}

impl DisplayLine {
    pub fn empty() -> (l: DisplayLine)
        ensures
            l.spans@.len() == 0,
            !line_has_content(l),
    {
        DisplayLine { spans: Vec::new() }
    }

    /// Whether the line would occupy at least one column when drawn.
    pub fn has_content(&self) -> (r: bool)
        ensures
            r == line_has_content(*self),
    {
        let mut i: usize = 0;
        while i < self.spans.len()
            invariant
                0 <= i <= self.spans@.len(),
                forall|j: int| 0 <= j < i ==> self.spans@[j].width == 0,
            decreases self.spans@.len() - i,
        {
            if self.spans[i].width > 0 {
                return true;
            }
            i = i + 1;
        }
        false
    }
}

/// The renderable content of one row: one or more lines.
#[derive(Clone, Debug, PartialEq, Eq)]
pub struct DisplayText {
    pub lines: Vec<DisplayLine>,
}

impl DisplayText {
    /// A single blank line, used for separator rows.
    pub fn blank_line() -> (t: DisplayText)
        ensures
            t.lines@.len() == 1,
            t.lines@[0].spans@.len() == 0,
    {
        let mut lines: Vec<DisplayLine> = Vec::new();
        lines.push(DisplayLine::empty());
        DisplayText { lines }
    }

    /// A single line holding one styled span.
    pub fn styled_line(text: String, style: SpanStyle) -> (t: DisplayText)
        ensures
            t.lines@.len() == 1,
            t.lines@[0].spans@.len() == 1,
            t.lines@[0].spans@[0].text == text,
            t.lines@[0].spans@[0].style == style,
            t.lines@[0].spans@[0].width == width_of(text@),
    {
        let span = DisplaySpan::new(text, style);
        let mut spans: Vec<DisplaySpan> = Vec::new();
        spans.push(span);
        let mut lines: Vec<DisplayLine> = Vec::new();
        lines.push(DisplayLine { spans });
        DisplayText { lines }
    }
}

} // verus!
