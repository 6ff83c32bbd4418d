//! Small decisions of the key handlers: the text of the delete prompt, whether creating or
//! renaming asks to overwrite first, where a find result leads, and where going up leads.

use crate::utils::{
    decimal_string, decimal_text, file_name_of, lowered_text, parent_of, path_file_name, path_parent, paths_equal,
    same_path, text_eq, to_lowercase,
};
use vstd::prelude::*;

verus! {

/// The prompt that asks to confirm deleting (or moving to the trash) `count` items.
pub open spec fn delete_prompt_text(is_trash: bool, count: nat) -> Seq<char> {
    (if is_trash { "Trash"@ } else { "Delete"@ }) + " "@
        + (if count > 1 { decimal_text(count) + " items"@ } else { "item"@ }) + "? [Y/n]"@
}

/// The prompt confirming a deletion of `count` items (see `delete_prompt_text`); none when
/// there is nothing to delete.
pub fn delete_prompt(is_trash: bool, count: usize) -> (r: Option<String>)
    ensures
        count == 0 ==> r is None,
        count > 0 ==> (r matches Some(t) && t@ == delete_prompt_text(is_trash, count as nat)),
{
    if count == 0 {
        return None;
    }
    let mut text = String::from_str(if is_trash { "Trash" } else { "Delete" });
    text.append(" ");
    if count > 1 {
        let number = decimal_string(count as u64);
        text.append(number.as_str());
        text.append(" items");
    } else {
        text.append("item");
    }
    text.append("? [Y/n]");
    Some(text)
}

/// Where a find result at `path` leads: into it when it is a directory (`is_dir`), else to
/// its directory with the file selected; nowhere for a file without a directory.
pub fn find_destination(path: &str, is_dir: bool) -> (r: Option<(String, Option<String>)>)
    ensures
        is_dir ==> (r matches Some((d, f)) && d@ == path@ && f is None),
        !is_dir ==> match parent_of(path@) {
            None => r is None,
            Some(p) => (r matches Some((d, f)) && d@ == p && match f {
                Some(n) => file_name_of(path@) == Some(n@),
                None => file_name_of(path@) is None,
            }),
        },
{
    if is_dir {
        return Some((String::from_str(path), None));
    }
    match path_parent(path) {
        None => None,
        Some(p) => Some((p, path_file_name(path))),
    }
}

/// Where going up from the directory `current` leads: its parent, with the name of the
/// directory left to select there; nowhere at the root.
pub fn parent_target(current: &str) -> (r: Option<(String, Option<String>)>)
    ensures
        match parent_of(current@) {
            None => r is None,
            Some(p) => (r matches Some((d, f)) && d@ == p && match f {
                Some(n) => file_name_of(current@) == Some(n@),
                None => file_name_of(current@) is None,
            }),
        },
{
    match path_parent(current) {
        None => None,
        Some(p) => Some((p, path_file_name(current))),
    }
}

/// What is being written over: a file or a directory being created, or a renamed entry.
#[derive(Debug, Clone, Copy, PartialEq, Eq, Structural)]
pub enum OverwriteKind {
    File,
    Directory,
    Entry,
}

/// The prompt asking to write over the existing `name`.
pub open spec fn overwrite_prompt_text(kind: OverwriteKind, name: Seq<char>) -> Seq<char> {
    (match kind {
        OverwriteKind::File => "Overwrite file '"@,
        OverwriteKind::Directory => "Overwrite directory '"@,
        OverwriteKind::Entry => "Overwrite '"@,
    }) + name + "' ? [Y/n]"@
}

/// The prompt asking to write over the existing path `target` (named by its file name, or
/// nothing where it has none).
pub fn overwrite_prompt(kind: OverwriteKind, target: &str) -> (r: String)
    ensures
        r@ == overwrite_prompt_text(kind, match file_name_of(target@) {
            Some(n) => n,
            None => Seq::empty(),
        }),
{
    let mut text = String::from_str(match kind {
        OverwriteKind::File => "Overwrite file '",
        OverwriteKind::Directory => "Overwrite directory '",
        OverwriteKind::Entry => "Overwrite '",
    });
    match path_file_name(target) {
        Some(n) => text.append(n.as_str()),
        None => {
            proof {
                reveal_strlit("");
            }
        },
    }
    text.append("' ? [Y/n]");
    proof {
        assert(text@ =~= overwrite_prompt_text(kind, match file_name_of(target@) {
            Some(n) => n,
            None => Seq::empty(),
        }));
    }
    text
}

/// What a rename from `old` to `new` does first.
#[derive(Debug, Clone, Copy, PartialEq, Eq, Structural)]
pub enum RenameCheck {
    /// The new path is the old one: nothing is done.
    Unchanged,
    /// Something else already stands at the new path: the user is asked to confirm.
    Confirm,
    /// The rename goes ahead.
    Proceed,
}

/// Whether a rename from `old` to `new` asks first: not where the paths are the same; where
/// something stands at `new` (`target_exists`), unless the paths differ only in letter case
/// (then the existing entry is the renamed one itself).
pub fn rename_check(old: &str, new: &str, target_exists: bool) -> (r: RenameCheck)
    ensures
        r == (if same_path(old@, new@) {
            RenameCheck::Unchanged
        } else if target_exists && lowered_text(old@) != lowered_text(new@) {
            RenameCheck::Confirm
        } else {
            RenameCheck::Proceed
        }),
{
    if paths_equal(old, new) {
        return RenameCheck::Unchanged;
    }
    let lo = to_lowercase(old);
    let ln = to_lowercase(new);
    if target_exists && !text_eq(lo.as_str(), ln.as_str()) {
        RenameCheck::Confirm
    } else {
        RenameCheck::Proceed
    }
}

} // verus!
