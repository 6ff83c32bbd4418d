//! Application state: navigation, actions, find, key handling and tabs.

pub mod actions;
pub mod autocomplete;
pub mod find_state;
pub mod handlers;
pub mod input;
pub mod keymap;
pub mod nav;
pub mod parent;
pub mod preview;
pub mod requests;
pub mod state;
pub mod tab;
pub mod timings;
