//! Verified core of an embedded command shell binding: a bounds-checked view
//! of a command line's arguments, a session with print, command and overflow
//! callback slots, and the controller that puts a terminal in raw mode and
//! restores it exactly once.

pub mod args;
pub mod io_rules;
pub mod shell;
pub mod terminal;
