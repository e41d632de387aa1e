//! A terminal emulator's screen model, input encoding and window rules.

pub mod decimal;
pub mod graphics;
pub mod grid;
pub mod input;
pub mod launch_laws;
pub mod launch_options;
pub mod layout;
pub mod linux_clipboard;
pub mod omarchy_theme;
pub mod text;
pub mod window;
