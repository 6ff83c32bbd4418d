//! Key binding configuration: for every bindable action, the list of key texts bound to it.

use crate::utils::collections::texts;
use vstd::prelude::*;

verus! {

/// The bindable actions of the configuration file's `[keys]` table.
#[derive(Clone, Copy, PartialEq, Eq, Structural, Debug, Hash)]
pub enum InputKeys {
    OpenFile,
    GoUp,
    GoDown,
    GoParent,
    GoIntoDir,
    Quit,
    Delete,
    Copy,
    Paste,
    Rename,
    Create,
    CreateDirectory,
    MoveFile,
    Filter,
    ToggleMarker,
    ShowInfo,
    Find,
    ClearMarkers,
    ClearClipboard,
    ClearFilter,
    ClearAll,
    AlternateDelete,
    SelectAll,
    PrefixGoTo,
    GoToTop,
    GoToHome,
    GoToPath,
    GoToBottom,
    TabNew,
    TabClose,
    TabNext,
    TabPrev,
    KeybindHelp,
    ScrollUp,
    ScrollDown,
    Sort,
    SortByName,
    SortByNatural,
    SortByExtension,
    SortBySize,
    SortByModified,
    SortByAccessed,
    SortByCreated,
}

/// The key texts bound to each action when the configuration says nothing of it.
pub open spec fn default_binding(k: InputKeys) -> Seq<Seq<char>> {
    match k {
        InputKeys::OpenFile => seq!["enter"@],
        InputKeys::GoUp => seq!["k"@, "up"@],
        InputKeys::GoDown => seq!["j"@, "down"@],
        InputKeys::GoParent => seq!["h"@, "left"@, "back"@],
        InputKeys::GoIntoDir => seq!["l"@, "right"@],
        InputKeys::Quit => seq!["q"@, "esc"@],
        InputKeys::Delete => seq!["d"@],
        InputKeys::Copy => seq!["y"@],
        InputKeys::Paste => seq!["p"@],
        InputKeys::Rename => seq!["r"@],
        InputKeys::Create => seq!["n"@],
        InputKeys::CreateDirectory => seq!["N"@],
        InputKeys::MoveFile => seq!["m"@],
        InputKeys::Filter => seq!["f"@],
        InputKeys::ToggleMarker => seq!["<space>"@],
        InputKeys::ShowInfo => seq!["i"@],
        InputKeys::Find => seq!["s"@],
        InputKeys::ClearMarkers => seq!["<c-c>"@],
        InputKeys::ClearClipboard => seq!["<f2>"@],
        InputKeys::ClearFilter => seq!["<c-f>"@],
        InputKeys::ClearAll => seq!["<c-l>"@],
        InputKeys::AlternateDelete => seq!["<m-d>"@],
        InputKeys::SelectAll => seq!["<c-a>"@],
        InputKeys::PrefixGoTo => seq!["g"@],
        InputKeys::GoToTop => seq!["g"@],
        InputKeys::GoToHome => seq!["h"@],
        InputKeys::GoToPath => seq!["p"@],
        InputKeys::GoToBottom => seq!["G"@],
        InputKeys::TabNew => seq!["<c-t>"@],
        InputKeys::TabClose => seq!["<c-w>"@],
        InputKeys::TabNext => seq!["<c-n>"@],
        InputKeys::TabPrev => seq!["<c-p>"@],
        InputKeys::KeybindHelp => seq!["?"@],
        InputKeys::ScrollUp => seq!["pgup"@],
        InputKeys::ScrollDown => seq!["pgdn"@],
        InputKeys::Sort => seq!["o"@],
        InputKeys::SortByName => seq!["n"@],
        InputKeys::SortByNatural => seq!["N"@],
        InputKeys::SortByExtension => seq!["e"@],
        InputKeys::SortBySize => seq!["s"@],
        InputKeys::SortByModified => seq!["m"@],
        InputKeys::SortByAccessed => seq!["a"@],
        InputKeys::SortByCreated => seq!["c"@],
    }
}

/// The default key texts of one action.
fn default_list(k: InputKeys) -> (r: Vec<String>)
    ensures
        texts(r@) == default_binding(k),
{
    let r: Vec<String> = match k {
        InputKeys::OpenFile => vec![String::from_str("enter")],
        InputKeys::GoUp => vec![String::from_str("k"), String::from_str("up")],
        InputKeys::GoDown => vec![String::from_str("j"), String::from_str("down")],
        InputKeys::GoParent => vec![String::from_str("h"), String::from_str("left"), String::from_str("back")],
        InputKeys::GoIntoDir => vec![String::from_str("l"), String::from_str("right")],
        InputKeys::Quit => vec![String::from_str("q"), String::from_str("esc")],
        InputKeys::Delete => vec![String::from_str("d")],
        InputKeys::Copy => vec![String::from_str("y")],
        InputKeys::Paste => vec![String::from_str("p")],
        InputKeys::Rename => vec![String::from_str("r")],
        InputKeys::Create => vec![String::from_str("n")],
        InputKeys::CreateDirectory => vec![String::from_str("N")],
        InputKeys::MoveFile => vec![String::from_str("m")],
        InputKeys::Filter => vec![String::from_str("f")],
        InputKeys::ToggleMarker => vec![String::from_str("<space>")],
        InputKeys::ShowInfo => vec![String::from_str("i")],
        InputKeys::Find => vec![String::from_str("s")],
        InputKeys::ClearMarkers => vec![String::from_str("<c-c>")],
        InputKeys::ClearClipboard => vec![String::from_str("<f2>")],
        InputKeys::ClearFilter => vec![String::from_str("<c-f>")],
        InputKeys::ClearAll => vec![String::from_str("<c-l>")],
        InputKeys::AlternateDelete => vec![String::from_str("<m-d>")],
        InputKeys::SelectAll => vec![String::from_str("<c-a>")],
        InputKeys::PrefixGoTo => vec![String::from_str("g")],
        InputKeys::GoToTop => vec![String::from_str("g")],
        InputKeys::GoToHome => vec![String::from_str("h")],
        InputKeys::GoToPath => vec![String::from_str("p")],
        InputKeys::GoToBottom => vec![String::from_str("G")],
        InputKeys::TabNew => vec![String::from_str("<c-t>")],
        InputKeys::TabClose => vec![String::from_str("<c-w>")],
        InputKeys::TabNext => vec![String::from_str("<c-n>")],
        InputKeys::TabPrev => vec![String::from_str("<c-p>")],
        InputKeys::KeybindHelp => vec![String::from_str("?")],
        InputKeys::ScrollUp => vec![String::from_str("pgup")],
        InputKeys::ScrollDown => vec![String::from_str("pgdn")],
        InputKeys::Sort => vec![String::from_str("o")],
        InputKeys::SortByName => vec![String::from_str("n")],
        InputKeys::SortByNatural => vec![String::from_str("N")],
        InputKeys::SortByExtension => vec![String::from_str("e")],
        InputKeys::SortBySize => vec![String::from_str("s")],
        InputKeys::SortByModified => vec![String::from_str("m")],
        InputKeys::SortByAccessed => vec![String::from_str("a")],
        InputKeys::SortByCreated => vec![String::from_str("c")],
    };
    assert(texts(r@) =~= default_binding(k));
    r
}

/// The slot of an action in the table of bindings.
pub open spec fn slot_of(k: InputKeys) -> int {
    match k {
        InputKeys::OpenFile => 0,
        InputKeys::GoUp => 1,
        InputKeys::GoDown => 2,
        InputKeys::GoParent => 3,
        InputKeys::GoIntoDir => 4,
        InputKeys::Quit => 5,
        InputKeys::Delete => 6,
        InputKeys::Copy => 7,
        InputKeys::Paste => 8,
        InputKeys::Rename => 9,
        InputKeys::Create => 10,
        InputKeys::CreateDirectory => 11,
        InputKeys::MoveFile => 12,
        InputKeys::Filter => 13,
        InputKeys::ToggleMarker => 14,
        InputKeys::ShowInfo => 15,
        InputKeys::Find => 16,
        InputKeys::ClearMarkers => 17,
        InputKeys::ClearClipboard => 18,
        InputKeys::ClearFilter => 19,
        InputKeys::ClearAll => 20,
        InputKeys::AlternateDelete => 21,
        InputKeys::SelectAll => 22,
        InputKeys::PrefixGoTo => 23,
        InputKeys::GoToTop => 24,
        InputKeys::GoToHome => 25,
        InputKeys::GoToPath => 26,
        InputKeys::GoToBottom => 27,
        InputKeys::TabNew => 28,
        InputKeys::TabClose => 29,
        InputKeys::TabNext => 30,
        InputKeys::TabPrev => 31,
        InputKeys::KeybindHelp => 32,
        InputKeys::ScrollUp => 33,
        InputKeys::ScrollDown => 34,
        InputKeys::Sort => 35,
        InputKeys::SortByName => 36,
        InputKeys::SortByNatural => 37,
        InputKeys::SortByExtension => 38,
        InputKeys::SortBySize => 39,
        InputKeys::SortByModified => 40,
        InputKeys::SortByAccessed => 41,
        InputKeys::SortByCreated => 42,
    }
}

/// The number of bindable actions.
pub const INPUT_KEY_COUNT: usize = 43;

/// The slot of an action in the table of bindings.
fn slot(k: InputKeys) -> (r: usize)
    ensures
        r == slot_of(k),
        r < INPUT_KEY_COUNT,
{
    match k {
        InputKeys::OpenFile => 0,
        InputKeys::GoUp => 1,
        InputKeys::GoDown => 2,
        InputKeys::GoParent => 3,
        InputKeys::GoIntoDir => 4,
        InputKeys::Quit => 5,
        InputKeys::Delete => 6,
        InputKeys::Copy => 7,
        InputKeys::Paste => 8,
        InputKeys::Rename => 9,
        InputKeys::Create => 10,
        InputKeys::CreateDirectory => 11,
        InputKeys::MoveFile => 12,
        InputKeys::Filter => 13,
        InputKeys::ToggleMarker => 14,
        InputKeys::ShowInfo => 15,
        InputKeys::Find => 16,
        InputKeys::ClearMarkers => 17,
        InputKeys::ClearClipboard => 18,
        InputKeys::ClearFilter => 19,
        InputKeys::ClearAll => 20,
        InputKeys::AlternateDelete => 21,
        InputKeys::SelectAll => 22,
        InputKeys::PrefixGoTo => 23,
        InputKeys::GoToTop => 24,
        InputKeys::GoToHome => 25,
        InputKeys::GoToPath => 26,
        InputKeys::GoToBottom => 27,
        InputKeys::TabNew => 28,
        InputKeys::TabClose => 29,
        InputKeys::TabNext => 30,
        InputKeys::TabPrev => 31,
        InputKeys::KeybindHelp => 32,
        InputKeys::ScrollUp => 33,
        InputKeys::ScrollDown => 34,
        InputKeys::Sort => 35,
        InputKeys::SortByName => 36,
        InputKeys::SortByNatural => 37,
        InputKeys::SortByExtension => 38,
        InputKeys::SortBySize => 39,
        InputKeys::SortByModified => 40,
        InputKeys::SortByAccessed => 41,
        InputKeys::SortByCreated => 42,
    }
}

/// The action in a slot of the table of bindings.
fn key_at(i: usize) -> (r: InputKeys)
    requires
        i < INPUT_KEY_COUNT,
    ensures
        slot_of(r) == i,
{
    match i {
        0 => InputKeys::OpenFile,
        1 => InputKeys::GoUp,
        2 => InputKeys::GoDown,
        3 => InputKeys::GoParent,
        4 => InputKeys::GoIntoDir,
        5 => InputKeys::Quit,
        6 => InputKeys::Delete,
        7 => InputKeys::Copy,
        8 => InputKeys::Paste,
        9 => InputKeys::Rename,
        10 => InputKeys::Create,
        11 => InputKeys::CreateDirectory,
        12 => InputKeys::MoveFile,
        13 => InputKeys::Filter,
        14 => InputKeys::ToggleMarker,
        15 => InputKeys::ShowInfo,
        16 => InputKeys::Find,
        17 => InputKeys::ClearMarkers,
        18 => InputKeys::ClearClipboard,
        19 => InputKeys::ClearFilter,
        20 => InputKeys::ClearAll,
        21 => InputKeys::AlternateDelete,
        22 => InputKeys::SelectAll,
        23 => InputKeys::PrefixGoTo,
        24 => InputKeys::GoToTop,
        25 => InputKeys::GoToHome,
        26 => InputKeys::GoToPath,
        27 => InputKeys::GoToBottom,
        28 => InputKeys::TabNew,
        29 => InputKeys::TabClose,
        30 => InputKeys::TabNext,
        31 => InputKeys::TabPrev,
        32 => InputKeys::KeybindHelp,
        33 => InputKeys::ScrollUp,
        34 => InputKeys::ScrollDown,
        35 => InputKeys::Sort,
        36 => InputKeys::SortByName,
        37 => InputKeys::SortByNatural,
        38 => InputKeys::SortByExtension,
        39 => InputKeys::SortBySize,
        40 => InputKeys::SortByModified,
        41 => InputKeys::SortByAccessed,
        _ => InputKeys::SortByCreated,
    }
}

/// Input configuration: the key texts bound to each action.
pub struct Keys {
    lists: Vec<Vec<String>>,
}

impl Keys {
    /// The key texts bound to `k`.
    pub closed spec fn bound(&self, k: InputKeys) -> Seq<Seq<char>> {
        texts(self.lists@[slot_of(k)]@)
    }

    /// The table has a slot for every action.
    pub closed spec fn wf(&self) -> bool {
        self.lists@.len() == INPUT_KEY_COUNT
    }

    /// The default bindings.
    pub fn default_keys() -> (r: Self)
        ensures
            r.wf(),
            forall|k: InputKeys| #[trigger] r.bound(k) == default_binding(k),
    {
        let mut lists: Vec<Vec<String>> = Vec::new();
        let mut i: usize = 0;
        while i < INPUT_KEY_COUNT
            invariant
                i <= INPUT_KEY_COUNT,
                lists@.len() == i,
                forall|k: InputKeys| slot_of(k) < i ==> texts(lists@[slot_of(k)]@) == default_binding(k),
            decreases INPUT_KEY_COUNT - i,
        {
            let k = key_at(i);
            lists.push(default_list(k));
            assert forall|k2: InputKeys| slot_of(k2) < i + 1 implies texts(lists@[slot_of(k2)]@) == default_binding(k2) by {
                if slot_of(k2) == i {
                    assert(k2 == k);
                }
            }
            i += 1;
        }
        Keys { lists }
    }

    /// The key texts bound to `k` (none when the action is unbound).
    pub fn get(&self, k: InputKeys) -> (r: &[String])
        requires
            self.wf(),
        ensures
            texts(r@) == self.bound(k),
    {
        self.lists[slot(k)].as_slice()
    }

    /// Binds `k` to `list`, replacing what it was bound to (a user's `[keys]` entry).
    pub fn set(&mut self, k: InputKeys, list: Vec<String>)
        requires
            old(self).wf(),
        ensures
            final(self).wf(),
            final(self).bound(k) == texts(list@),
            forall|k2: InputKeys| k2 != k ==> #[trigger] final(self).bound(k2) == old(self).bound(k2),
    {
        let i = slot(k);
        self.lists.set(i, list);
        assert forall|k2: InputKeys| k2 != k implies #[trigger] self.bound(k2) == old(self).bound(k2) by {
            assert(slot_of(k2) != slot_of(k));
        }
    }
}

} // verus!

verus! {

/// The editor command for a file, if it is bound by name (exact, then lowercase) or by
/// lowercase extension; `None` means the default command.
pub open spec fn bound_command(
    filename: Map<Seq<char>, Vec<String>>,
    ext: Map<Seq<char>, Vec<String>>,
    path: Seq<char>,
) -> Option<Vec<String>> {
    match crate::utils::file_name_of(path) {
        Some(name) => if filename.contains_key(name) {
            Some(filename[name])
        } else if filename.contains_key(crate::utils::lowercase_text(name)) {
            Some(filename[crate::utils::lowercase_text(name)])
        } else {
            match crate::engine::listing::extension_of(name) {
                Some(e) => if ext.contains_key(crate::utils::lowercase_text(e)) {
                    Some(ext[crate::utils::lowercase_text(e)])
                } else {
                    None
                },
                None => None,
            }
        },
        None => None,
    }
}

/// The path of an executable of this name on the search path (`which::which`), if one is
/// found there; it depends on the machine, so nothing is promised of it.
#[verifier::external_body]
fn which_path(program: &str) -> Option<String> {
    which::which(program).ok().map(|p| p.to_string_lossy().into_owned())
}

/// Which editor command opens which file: by file name, by extension, or the default.
pub struct Editor {
    default: Vec<String>,
    ext: crate::utils::collections::TextMap<Vec<String>>,
    filename: crate::utils::collections::TextMap<Vec<String>>,
}

impl Editor {
    /// The default command.
    pub closed spec fn default_view(&self) -> Vec<String> {
        self.default
    }

    /// The commands by lowercase extension.
    pub closed spec fn ext_view(&self) -> Map<Seq<char>, Vec<String>> {
        self.ext@
    }

    /// The commands by file name.
    pub closed spec fn filename_view(&self) -> Map<Seq<char>, Vec<String>> {
        self.filename@
    }

    /// The maps are well formed.
    pub closed spec fn wf(&self) -> bool {
        self.ext.wf() && self.filename.wf()
    }

    /// An editor configuration from its parts.
    pub fn from_parts(
        default: Vec<String>,
        ext: crate::utils::collections::TextMap<Vec<String>>,
        filename: crate::utils::collections::TextMap<Vec<String>>,
    ) -> (r: Self)
        requires
            ext.wf(),
            filename.wf(),
        ensures
            r.wf(),
            r.default_view() == default,
            r.ext_view() == ext@,
            r.filename_view() == filename@,
    {
        Editor { default, ext, filename }
    }

    /// `vim` for everything.
    pub fn new() -> (r: Self)
        ensures
            r.wf(),
            r.default_view()@.len() == 1 && r.default_view()@[0]@ == "vim"@,
            r.ext_view().dom().len() == 0,
            r.filename_view().dom().len() == 0,
    {
        let mut default: Vec<String> = Vec::new();
        default.push(String::from_str("vim"));
        let ext = crate::utils::collections::TextMap::new();
        let filename = crate::utils::collections::TextMap::new();
        Editor { default, ext, filename }
    }

    /// The command that opens `path`: the one bound to its file name (as written, then in
    /// lowercase), else to its lowercase extension, else the default.
    pub fn cmd(&self, path: &str) -> (r: &[String])
        requires
            self.wf(),
        ensures
            r@ == (match bound_command(self.filename_view(), self.ext_view(), path@) {
                Some(c) => c@,
                None => self.default_view()@,
            }),
    {
        match crate::utils::path_file_name(path) {
            Some(name) => {
                match self.filename.get(name.as_str()) {
                    Some(c) => {
                        return c.as_slice();
                    },
                    None => {},
                }
                let low = crate::utils::to_lowercase(name.as_str());
                match self.filename.get(low.as_str()) {
                    Some(c) => {
                        return c.as_slice();
                    },
                    None => {},
                }
                match crate::engine::listing::extension(name.as_str()) {
                    Some(e) => {
                        let le = crate::utils::to_lowercase(e.as_str());
                        match self.ext.get(le.as_str()) {
                            Some(c) => {
                                return c.as_slice();
                            },
                            None => {},
                        }
                    },
                    None => {},
                }
            },
            None => {},
        }
        self.default.as_slice()
    }

    /// Where the program of the command for `path` is installed, if it is found.
    pub fn resolved_path(&self, path: &str) -> (r: Option<String>)
        requires
            self.wf(),
        ensures
            (match bound_command(self.filename_view(), self.ext_view(), path@) {
                Some(c) => c@,
                None => self.default_view()@,
            }).len() == 0 ==> r is None,
    {
        let cmd = self.cmd(path);
        if cmd.len() == 0 {
            return None;
        }
        which_path(cmd[0].as_str())
    }

    /// Whether the program of the command for `path` is installed.
    pub fn is_installed(&self, path: &str) -> (r: bool)
        requires
            self.wf(),
        ensures
            (match bound_command(self.filename_view(), self.ext_view(), path@) {
                Some(c) => c@,
                None => self.default_view()@,
            }).len() == 0 ==> !r,
    {
        self.resolved_path(path).is_some()
    }
}

} // verus!
