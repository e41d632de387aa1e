//! The terminal screen: cells, cursor, scrolling, history and the alternate
//! screen.
pub mod boundary_pages;
pub mod bounded;
pub mod buffer;
pub mod cell;
pub mod cluster;
pub mod cursor;
pub mod cursor_laws;
pub mod edit;
pub mod edit_laws;
pub mod history;
pub mod marks;
pub mod operations;
pub mod preserve;
pub mod print_laws;
pub mod reflow;
pub mod reflow_laws;
pub mod resize;
pub mod resize_laws;
pub mod retention;
pub mod runs;
pub mod screens;
pub mod scroll;
pub mod scroll_laws;
pub mod session;
pub mod state_laws;
pub mod terminal;
pub mod viewport;
pub mod whole;
pub mod wide;
pub mod wide_laws;
pub mod write;

pub use crate::grid::terminal::{
    dec_special_map, CharSet, CursorShape, CursorStyle, Grid, GridView, KittyCommand, MouseEncoding,
    MouseTracking, SixelImage, TerminalEvent,
};
