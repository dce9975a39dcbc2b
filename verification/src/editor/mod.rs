//! The editor's command history.
pub mod commands;
pub mod editor;
