//! A terminal file manager's logic: navigation and listing state, file operations decided from
//! user actions, fuzzy finding, sorting and formatting of entries, and key bindings.

pub mod app;
pub mod config;
pub mod engine;
pub mod keymap;
pub mod ui;
pub mod utils;
