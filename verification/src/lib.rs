//! A collapsible hierarchical item viewport: the data model for a
//! variable-depth tree of displayable rows flattened into a navigable,
//! partially-collapsed list, the cursor/scroll synchronization that keeps
//! the selection visible, and the renderer that maps the collapsed view
//! onto a fixed-height screen with depth-aware highlighting.

pub mod display;
pub mod items;
pub mod screen;
pub mod tree;
pub mod render;
pub mod status;
pub mod input;
pub mod laws;
