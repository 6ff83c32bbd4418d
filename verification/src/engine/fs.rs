//! File names on disk: the first unused name for a copy, whether a copy may go where it is
//! asked to, and the kinds of file that previews skip.

use crate::engine::listing::{extension, extension_of};
use crate::utils::{
    chars_of, decimal_string, decimal_text, file_name_of, join_spec, parent_of, path_file_name,
    path_has_prefix, path_join, path_parent, path_starts_with, push_char, text_eq,
};
use vstd::prelude::*;

verus! {

/// The stem of a file name (`Path::file_stem`): the name without its extension and the dot
/// before it; the whole name where it has no extension.
pub open spec fn stem_of(name: Seq<char>) -> Seq<char> {
    match extension_of(name) {
        Some(e) => name.subrange(0, name.len() - e.len() - 1),
        None => name,
    }
}

/// The `k`-th alternative name for a file name: `stem_k.ext` (or `stem_k` without extension).
pub open spec fn numbered_name(name: Seq<char>, k: nat) -> Seq<char> {
    stem_of(name) + seq!['_'] + decimal_text(k) + match extension_of(name) {
        Some(e) => seq!['.'] + e,
        None => Seq::empty(),
    }
}

/// The `k`-th alternative for a path: the numbered name in the same directory.
pub open spec fn numbered_path(path: Seq<char>, k: nat) -> Seq<char> {
    let dir = match parent_of(path) {
        Some(p) => p,
        None => Seq::empty(),
    };
    let name = match file_name_of(path) {
        Some(n) => n,
        None => Seq::empty(),
    };
    join_spec(dir, numbered_name(name, k))
}

/// The `k`-th alternative name for `name` (see `numbered_name`).
pub fn numbered_file_name(name: &str, k: u64) -> (r: String)
    ensures
        r@ == numbered_name(name@, k as nat),
{
    let ext = extension(name);
    let cs = chars_of(name);
    let stem_len: usize = match &ext {
        Some(e) => {
            proof {
                crate::engine::listing::lemma_extension_len(name@);
            }
            cs.len() - e.unicode_len() - 1
        },
        None => cs.len(),
    };
    let mut out = crate::utils::string_of_range(cs.as_slice(), 0, stem_len);
    push_char(&mut out, '_');
    let digits = decimal_string(k);
    out.append(digits.as_str());
    match &ext {
        Some(e) => {
            push_char(&mut out, '.');
            out.append(e.as_str());
        },
        None => {},
    }
    out
}

/// The `k`-th alternative for a path (see `numbered_path`).
pub fn numbered_path_exec(path: &str, k: u64) -> (r: String)
    ensures
        r@ == numbered_path(path@, k as nat),
{
    let dir = match path_parent(path) {
        Some(p) => p,
        None => String::new(),
    };
    let name = match path_file_name(path) {
        Some(n) => n,
        None => String::new(),
    };
    let candidate = numbered_file_name(name.as_str(), k);
    path_join(dir.as_str(), candidate.as_str())
}

/// Whether the predicate `is_taken`, asked about a path whose text is `p`, may answer `b`.
pub open spec fn answered<F: Fn(&str) -> bool>(is_taken: F, p: Seq<char>, b: bool) -> bool {
    exists|s: &str| s@ == p && #[trigger] is_taken.ensures((s,), b)
}

/// The first path that the predicate `is_taken` says is free: `path` itself, else its numbered
/// alternatives `stem_1.ext`, `stem_2.ext`, ... in turn. Either the predicate said `path` is free
/// and it is the answer, or it said `path` is taken and the answer is the `k`-th alternative,
/// every earlier alternative having been found taken and this one free (the numbering ends
/// at `u64::MAX`, where the last alternative is answered whatever the predicate says).
pub fn get_unused_path<F: Fn(&str) -> bool>(path: &str, is_taken: F) -> (r: String)
    requires
        forall|p: &str| is_taken.requires((p,)),
    ensures
        (r@ == path@ && answered(is_taken, path@, false)) || (answered(is_taken, path@, true) && exists|k: nat| {
            &&& 1 <= k <= u64::MAX
            &&& r@ == numbered_path(path@, k)
            &&& forall|j: nat| 1 <= j < k ==> answered(is_taken, #[trigger] numbered_path(path@, j), true)
            &&& (k < u64::MAX ==> answered(is_taken, numbered_path(path@, k), false))
        }),
{
    let first = is_taken(path);
    assert(answered(is_taken, path@, first));
    if !first {
        return String::from_str(path);
    }
    let mut counter: u64 = 1;
    loop
        invariant
            1 <= counter,
            forall|p: &str| is_taken.requires((p,)),
            answered(is_taken, path@, true),
            forall|j: nat| 1 <= j < counter ==> answered(is_taken, #[trigger] numbered_path(path@, j), true),
        decreases u64::MAX - counter,
    {
        let target = numbered_path_exec(path, counter);
        let taken = is_taken(target.as_str());
        assert(answered(is_taken, numbered_path(path@, counter as nat), taken));
        if !taken || counter == u64::MAX {
            assert(counter as nat <= u64::MAX);
            return target;
        }
        counter += 1;
    }
}

/// Extensions of files that previews skip (archives, libraries and the like).
pub open spec fn denied_extension(e: Seq<char>) -> bool {
    e == "a"@ || e == "lib"@ || e == "ilk"@ || e == "h5"@ || e == "zip"@ || e == "gz"@ || e == "tar"@ || e == "pdb"@
}

/// Whether previews skip the file at `path`: its extension is one of the denied ones.
pub fn is_preview_deny(path: &str) -> (r: bool)
    ensures
        r == (match file_name_of(path@) {
            Some(n) => extension_of(n) matches Some(e) && denied_extension(e),
            None => false,
        }),
{
    let name = match path_file_name(path) {
        Some(n) => n,
        None => {
            return false;
        },
    };
    match extension(name.as_str()) {
        Some(e) => {
            let x = e.as_str();
            text_eq(x, "a") || text_eq(x, "lib") || text_eq(x, "ilk") || text_eq(x, "h5") || text_eq(x, "zip")
                || text_eq(x, "gz") || text_eq(x, "tar") || text_eq(x, "pdb")
        },
        None => false,
    }
}

/// ASCII lowercase of a text.
pub open spec fn ascii_lowercase(s: Seq<char>) -> Seq<char> {
    s.map_values(|c: char| crate::utils::lower_spec(c))
}

/// Extensions of temporary and partial files.
pub open spec fn temp_extension(e: Seq<char>) -> bool {
    e == "crdownload"@ || e == "part"@ || e == "partial"@ || e == "download"@ || e == "opdownload"@ || e == "aria2"@
        || e == "tmp"@ || e == "temp"@ || e == "swp"@ || e == "swo"@ || e == "swx"@
}

/// Whether a file name looks like a temporary file's: its extension (any case) is a temporary
/// one, or it ends with `~`, or starts with `~$` or `.~`.
pub open spec fn temp_name(n: Seq<char>) -> bool {
    ||| (extension_of(n) matches Some(e) && temp_extension(ascii_lowercase(e)))
    ||| (n.len() > 0 && n.last() == '~')
    ||| (n.len() >= 2 && n[0] == '~' && n[1] == '$')
    ||| (n.len() >= 2 && n[0] == '.' && n[1] == '~')
}

/// Whether the file at `path` is likely a temporary file (see `temp_name`).
pub fn is_temp_file(path: &str) -> (r: bool)
    ensures
        r == (match file_name_of(path@) {
            Some(n) => temp_name(n),
            None => false,
        }),
{
    let name = match path_file_name(path) {
        Some(n) => n,
        None => {
            return false;
        },
    };
    let by_ext = match extension(name.as_str()) {
        Some(e) => {
            let ecs = chars_of(e.as_str());
            let mut low = String::new();
            let mut i: usize = 0;
            while i < ecs.len()
                invariant
                    i <= ecs@.len(),
                    ecs@ == e@,
                    low@ == ascii_lowercase(e@).subrange(0, i as int),
                decreases ecs@.len() - i,
            {
                push_char(&mut low, crate::utils::ascii_lower(ecs[i]));
                assert(ascii_lowercase(e@).subrange(0, i + 1) == ascii_lowercase(e@).subrange(0, i as int).push(crate::utils::lower_spec(ecs@[i as int])));
                i += 1;
            }
            assert(ascii_lowercase(e@).subrange(0, ecs@.len() as int) == ascii_lowercase(e@));
            let x = low.as_str();
            text_eq(x, "crdownload") || text_eq(x, "part") || text_eq(x, "partial") || text_eq(x, "download")
                || text_eq(x, "opdownload") || text_eq(x, "aria2") || text_eq(x, "tmp") || text_eq(x, "temp")
                || text_eq(x, "swp") || text_eq(x, "swo") || text_eq(x, "swx")
        },
        None => false,
    };
    let cs = chars_of(name.as_str());
    let n = cs.len();
    by_ext || (n > 0 && cs[n - 1] == '~') || (n >= 2 && cs[0] == '~' && cs[1] == '$') || (n >= 2 && cs[0] == '.'
        && cs[1] == '~')
}

/// Why a copy is refused before anything is written.
#[derive(Debug, Clone, Copy, PartialEq, Eq, Structural)]
pub enum CopyRefusal {
    /// The destination has no parent directory.
    NoParent,
    /// The destination's parent directory does not exist.
    ParentMissing,
    /// The destination has no file name.
    NoFileName,
    /// The destination lies inside the source.
    IntoItself,
}

impl CopyRefusal {
    /// The message reported for a refusal.
    pub fn message(&self) -> (r: &'static str)
        ensures
            r@ == (match *self {
                CopyRefusal::NoParent => "Destination has no parent"@,
                CopyRefusal::ParentMissing => "Destination parent does not exist"@,
                CopyRefusal::NoFileName => "Destination has no file name"@,
                CopyRefusal::IntoItself => "Cannot copy a directory into its own subdirectory"@,
            }),
    {
        match self {
            CopyRefusal::NoParent => "Destination has no parent",
            CopyRefusal::ParentMissing => "Destination parent does not exist",
            CopyRefusal::NoFileName => "Destination has no file name",
            CopyRefusal::IntoItself => "Cannot copy a directory into its own subdirectory",
        }
    }
}

/// Why copying the source whose canonical path is `src_canon` to `dest` is refused, where
/// `parent_canon` is the canonical path of `dest`'s parent directory (none where it does not
/// exist): in this order, a destination without a parent, a missing parent, a destination
/// without a file name, and a destination that, resolved, lies inside the source. None when
/// the copy may go ahead.
pub open spec fn copy_refusal(src_canon: Seq<char>, dest: Seq<char>, parent_canon: Option<Seq<char>>) -> Option<CopyRefusal> {
    match parent_of(dest) {
        None => Some(CopyRefusal::NoParent),
        Some(_) => match parent_canon {
            None => Some(CopyRefusal::ParentMissing),
            Some(pc) => match file_name_of(dest) {
                None => Some(CopyRefusal::NoFileName),
                Some(f) => if path_has_prefix(join_spec(pc, f), src_canon) {
                    Some(CopyRefusal::IntoItself)
                } else {
                    None
                },
            },
        },
    }
}

/// Checks that a copy may go ahead (see `copy_refusal`); the caller resolves the paths and
/// then copies.
pub fn check_copy_target(src_canon: &str, dest: &str, parent_canon: Option<&str>) -> (r: Result<(), CopyRefusal>)
    ensures
        r == (match copy_refusal(src_canon@, dest@, match parent_canon {
            Some(p) => Some(p@),
            None => None,
        }) {
            Some(e) => Err(e),
            None => Ok(()),
        }),
{
    if path_parent(dest).is_none() {
        return Err(CopyRefusal::NoParent);
    }
    let pc = match parent_canon {
        None => return Err(CopyRefusal::ParentMissing),
        Some(p) => p,
    };
    let name = match path_file_name(dest) {
        None => return Err(CopyRefusal::NoFileName),
        Some(n) => n,
    };
    let dest_canon = path_join(pc, name.as_str());
    if path_starts_with(dest_canon.as_str(), src_canon) {
        Err(CopyRefusal::IntoItself)
    } else {
        Ok(())
    }
}

} // verus!
