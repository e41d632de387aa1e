//! The rules of the terminal window.
pub mod composition;
pub mod composition_laws;
pub mod dispatch;
pub mod frame;
pub mod geometry;
pub mod input_laws;
pub mod paint;
pub mod paint_laws;
pub mod pointer;
pub mod preedit;
pub mod snapshot;
pub mod state;
pub mod state_laws;
pub mod status;
pub mod title;
pub mod underline;
pub mod underline_laws;
