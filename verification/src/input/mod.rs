//! What the user types, clicks and pastes, as bytes for the terminal program.
pub mod key_laws;
pub mod keybind;
pub mod keyboard;
pub mod linux;
pub mod macos;
pub mod mouse;
pub mod paste;
