//! Core file-manager logic: entries, sorting, formatting and search ranking.

pub mod find;
pub mod fm;
pub mod listing;
pub mod metadata;
pub mod preview;
pub mod cache;
pub mod sort;
pub mod width;
pub mod formatter;
pub mod fs;
pub mod identity;
pub mod proc;
pub mod worker;
