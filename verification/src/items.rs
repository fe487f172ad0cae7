//! A single tree node: one displayable row with depth, selectability,
//! section-ness, a stable identity, and an optional semantic payload.

use vstd::prelude::*;
use crate::display::DisplayText;

verus! {

/// The semantic object a row refers to, consumed by actions outside the
/// viewport engine (stage, unstage, open); the engine itself only tests
/// which variant is present.
#[derive(Clone, Debug, PartialEq, Eq)]
pub enum TargetData {
    /// A file path.
    File(String),
    /// A hunk of a file's diff, identified by its header text.
    Hunk(String),
    /// A commit reference.
    Commit(String),
}

/// One row of the flattened item tree.
#[derive(Clone, Debug, PartialEq, Eq)]
pub struct Item {
    /// Stable key for the collapse registry; meaningful only on sections.
    pub id: String,
    /// The row's renderable content.
    pub display: DisplayText,
    /// Distance from the root of the tree; children of a depth-`d` section
    /// have depth `d + 1`.
    pub depth: usize,
    /// Rows the cursor must never land on (separators, static text).
    pub unselectable: bool,
    /// Only section rows are collapsible.
    pub section: bool,
    /// What the row refers to, if it is actionable.
    pub target_data: Option<TargetData>,
}

impl Item {
    /// The number of lines this row contributes to the rendered view.
    pub open spec fn spec_line_count(self) -> int {
        self.display.lines@.len() as int
    }

    pub fn line_count(&self) -> (n: usize)
        ensures
            n == self.spec_line_count(),
    {
        self.display.lines.len()
    }
}

} // verus!
