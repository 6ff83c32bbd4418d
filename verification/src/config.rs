//! Configuration: key bindings, display options and general settings.

pub mod colors;
pub mod display;
pub mod general;
pub mod input;
pub mod presets;
pub mod theme;
