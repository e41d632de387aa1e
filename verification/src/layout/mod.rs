//! Panes and the dividers between them.
pub mod tree;
pub mod tree_laws;

pub use crate::layout::tree::{LayoutStep, PaneId, PaneNode, SplitDirection};
