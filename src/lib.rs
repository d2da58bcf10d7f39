//! Status-line hints for a terminal multiplexer: ANSI-aware measurement and
//! truncation of styled text, and the composition of keybinding hints.

pub mod ansi;
pub mod keys;
pub mod hints;
pub mod plugin;
pub mod ui;
