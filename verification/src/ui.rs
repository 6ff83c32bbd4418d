//! What the interface shows: the rows of the panes, the input field, and what stands on top
//! of them.

pub mod input_field;
pub mod overlays;
pub mod panes;
