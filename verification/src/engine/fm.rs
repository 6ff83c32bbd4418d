//! Directory entries as the rest of the crate sees them.

use crate::utils::{lowercase_text, to_lowercase};
use vstd::prelude::*;

verus! {

/// One entry of a directory listing: its name, the lowercase form of the name used for
/// filtering and case-insensitive ordering, attribute bits and the symlink target if any.
#[derive(Debug)]
pub struct FileEntry {
    name: String,
    lowered: String,
    flags: u8,
    symlink: Option<String>,
}

impl View for FileEntry {
    /// (name, lowercase name, attribute bits, symlink target)
    type V = (Seq<char>, Seq<char>, u8, Option<Seq<char>>);

    closed spec fn view(&self) -> Self::V {
        (
            self.name@,
            self.lowered@,
            self.flags,
            match &self.symlink {
                Some(t) => Some(t@),
                None => None,
            },
        )
    }
}

/// The name of an entry.
pub open spec fn entry_name(e: FileEntry) -> Seq<char> {
    e@.0
}

/// The lowercase form of an entry's name.
pub open spec fn entry_lowered(e: FileEntry) -> Seq<char> {
    e@.1
}

impl FileEntry {
    /// The entry is a directory (or a symlink to one).
    pub const IS_DIR: u8 = 1;
    /// The entry is hidden.
    pub const IS_HIDDEN: u8 = 2;
    /// The entry is a system file.
    pub const IS_SYSTEM: u8 = 4;
    /// The entry is a symbolic link.
    pub const IS_SYMLINK: u8 = 8;
    /// The entry is a symbolic link whose target is missing.
    pub const IS_BROKEN_SYM: u8 = 16;
    /// The entry is executable.
    pub const IS_EXECUTABLE: u8 = 32;

    /// Makes an entry; the lowercase form of the name is computed here.
    pub fn new(name: String, flags: u8, symlink: Option<String>) -> (r: Self)
        ensures
            r@.0 == name@,
            r@.1 == lowercase_text(name@),
            r@.2 == flags,
            r@.3 == (match symlink {
                Some(t) => Some(t@),
                None => None::<Seq<char>>,
            }),
    {
        let lowered = to_lowercase(name.as_str());
        FileEntry { name, lowered, flags, symlink }
    }

    /// The entry's name.
    pub fn name(&self) -> (r: &str)
        ensures
            r@ == self@.0,
    {
        self.name.as_str()
    }

    /// The entry's name as text (names are held as Unicode text here).
    pub fn name_str(&self) -> (r: &str)
        ensures
            r@ == self@.0,
    {
        self.name.as_str()
    }

    /// The lowercase form of the entry's name.
    pub fn lowered(&self) -> (r: &str)
        ensures
            r@ == self@.1,
    {
        self.lowered.as_str()
    }

    /// The attribute bits.
    pub fn flags(&self) -> (r: u8)
        ensures
            r == self@.2,
    {
        self.flags
    }

    /// The symlink target, if the entry is a symlink that was read.
    pub fn symlink(&self) -> (r: Option<&String>)
        ensures
            match r {
                Some(t) => self@.3 == Some(t@),
                None => self@.3 == None::<Seq<char>>,
            },
    {
        self.symlink.as_ref()
    }

    /// The entry is a directory.
    pub fn is_dir(&self) -> (r: bool)
        ensures
            r == (self@.2 & 1u8 != 0u8),
    {
        self.flags & Self::IS_DIR != 0
    }

    /// The entry is a symbolic link.
    pub fn is_symlink(&self) -> (r: bool)
        ensures
            r == (self@.2 & 8u8 != 0u8),
    {
        self.flags & Self::IS_SYMLINK != 0
    }

    /// The entry is a broken symbolic link.
    pub fn is_broken_sym(&self) -> (r: bool)
        ensures
            r == (self@.2 & 16u8 != 0u8),
    {
        self.flags & Self::IS_BROKEN_SYM != 0
    }

    /// The entry is executable.
    pub fn is_executable(&self) -> (r: bool)
        ensures
            r == (self@.2 & 32u8 != 0u8),
    {
        self.flags & Self::IS_EXECUTABLE != 0
    }

    /// The entry is hidden.
    pub fn is_hidden(&self) -> (r: bool)
        ensures
            r == (self@.2 & 2u8 != 0u8),
    {
        self.flags & Self::IS_HIDDEN != 0
    }

    /// The entry is a system file.
    pub fn is_system(&self) -> (r: bool)
        ensures
            r == (self@.2 & 4u8 != 0u8),
    {
        self.flags & Self::IS_SYSTEM != 0
    }

    /// A copy of the entry.
    pub fn duplicate(&self) -> (r: Self)
        ensures
            r@ == self@,
    {
        let symlink = match &self.symlink {
            Some(t) => Some(t.clone()),
            None => None,
        };
        FileEntry { name: self.name.clone(), lowered: self.lowered.clone(), flags: self.flags, symlink }
    }
}

/// The permission bits that make a file executable by someone.
pub const EXEC_FLAG: u32 = 0o111;

/// The attribute bits of a listed entry, from what the listing says of it (a directory, a
/// symbolic link), what its metadata says where it could be read (following a link: whether
/// it is a directory, and its permission bits), and its name: a directory by either account,
/// hidden when the name starts with a dot, a link, a broken link when a link's metadata could
/// not be read, executable when any execute bit is set. The bits are distinct, so their sum
/// is their union.
pub open spec fn listing_flags_spec(listed_dir: bool, listed_symlink: bool, meta: Option<(bool, u32)>, name: Seq<char>) -> u8 {
    let dir = listed_dir || (meta matches Some((d, _)) && d);
    let hidden = name.len() > 0 && name[0] == '.';
    let broken = listed_symlink && meta is None;
    let exec = meta matches Some((_, mode)) && mode & EXEC_FLAG != 0u32;
    ((if dir { 1int } else { 0int }) + (if hidden { 2int } else { 0int }) + (if listed_symlink { 8int } else { 0int })
        + (if broken { 16int } else { 0int }) + (if exec { 32int } else { 0int })) as u8
}

/// The attribute bits of a listed entry (see `listing_flags_spec`).
pub fn listing_flags(listed_dir: bool, listed_symlink: bool, meta: Option<(bool, u32)>, name: &str) -> (r: u8)
    ensures
        r == listing_flags_spec(listed_dir, listed_symlink, meta, name@),
{
    let mut flags: u8 = 0;
    let dir = listed_dir || match meta {
        Some((d, _)) => d,
        None => false,
    };
    if dir {
        flags = flags + 1;
    }
    if name.unicode_len() > 0 && name.get_char(0) == '.' {
        flags = flags + 2;
    }
    if listed_symlink {
        flags = flags + 8;
        if meta.is_none() {
            flags = flags + 16;
        }
    }
    match meta {
        Some((_, mode)) => {
            if mode & EXEC_FLAG != 0 {
                flags = flags + 32;
            }
        },
        None => {},
    }
    flags
}

} // verus!
