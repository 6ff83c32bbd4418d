//! The file operations that the worker threads carry out, as values.

use vstd::prelude::*;

verus! {

/// A file-system operation for the file-operation worker.
pub enum FileOperation {
    /// Delete these paths (to the trash when the flag is set).
    Delete(Vec<String>, bool),
    /// Rename `old` to `new`.
    Rename { old: String, new: String },
    /// Copy (or move, when `cut`) these paths into `dest`; `focus` names the entry to select after.
    Copy { src: Vec<String>, dest: String, cut: bool, focus: Option<String> },
    /// Create a file or a directory at `path`.
    Create { path: String, is_dir: bool },
}

} // verus!
