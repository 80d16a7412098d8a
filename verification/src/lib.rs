//! Hotkey dispatch: the rules that turn a declared list of key bindings into
//! the set of live registrations, and that decide what a daemon does on each
//! reload and on each key press.

pub mod keys;
pub mod config;
pub mod bindings;
pub mod registry;
pub mod daemon;
pub mod laws;
