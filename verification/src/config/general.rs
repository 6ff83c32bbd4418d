//! General settings: what listings show, how they order names, the limit of find results,
//! and whether deleting moves to the trash.

use crate::engine::listing::DirListOptions;
use crate::utils::collections::{texts, TextSet};
use vstd::prelude::*;

verus! {

/// The least number of find results that can be configured.
pub const MIN_FIND_RESULTS: usize = 15;
/// The most find results that can be configured.
pub const MAX_FIND_RESULTS_LIMIT: usize = 1000000;
/// The number of find results when none is configured.
pub const DEFAULT_FIND_RESULTS: usize = 2000;

/// A configured limit of find results, brought into the allowed range.
pub open spec fn clamped_results(value: usize) -> usize {
    if value < MIN_FIND_RESULTS {
        MIN_FIND_RESULTS
    } else if value > MAX_FIND_RESULTS_LIMIT {
        MAX_FIND_RESULTS_LIMIT
    } else {
        value
    }
}

/// Brings a configured limit of find results into the allowed range.
pub fn clamp_find_results(value: usize) -> (r: usize)
    ensures
        r == clamped_results(value),
        MIN_FIND_RESULTS <= r <= MAX_FIND_RESULTS_LIMIT,
{
    if value < MIN_FIND_RESULTS {
        MIN_FIND_RESULTS
    } else if value > MAX_FIND_RESULTS_LIMIT {
        MAX_FIND_RESULTS_LIMIT
    } else {
        value
    }
}

/// The general settings as written in the configuration file.
pub struct General {
    pub dirs_first: bool,
    pub show_hidden: bool,
    pub show_symlink: bool,
    pub show_system: bool,
    pub case_insensitive: bool,
    pub always_show: Vec<String>,
    pub max_find_results: usize,
    pub move_to_trash: bool,
    pub startup_tabs: Vec<String>,
}

impl General {
    /// The defaults: directories first, hidden files and symlinks shown, system files not,
    /// case-insensitive names, 2000 find results, deleting to the trash.
    pub fn new() -> (r: Self)
        ensures
            r.dirs_first && r.show_hidden && r.show_symlink && !r.show_system && r.case_insensitive,
            r.always_show@.len() == 0,
            r.max_find_results == DEFAULT_FIND_RESULTS,
            r.move_to_trash,
            r.startup_tabs@.len() == 0,
    {
        General {
            dirs_first: true,
            show_hidden: true,
            show_symlink: true,
            show_system: false,
            case_insensitive: true,
            always_show: Vec::new(),
            max_find_results: DEFAULT_FIND_RESULTS,
            move_to_trash: true,
            startup_tabs: Vec::new(),
        }
    }
}

/// The general settings as the application uses them.
pub struct InternalGeneral {
    list: DirListOptions,
    always_show: TextSet,
    max_find_results: usize,
    move_to_trash: bool,
    startup_tabs: Vec<String>,
}

impl InternalGeneral {
    /// The listing options.
    pub closed spec fn list_view(&self) -> DirListOptions {
        self.list
    }

    /// The names always shown.
    pub closed spec fn always_show_view(&self) -> Set<Seq<char>> {
        self.always_show@
    }

    /// The limit of find results.
    pub closed spec fn max_results_view(&self) -> usize {
        self.max_find_results
    }

    /// Whether deleting moves to the trash.
    pub closed spec fn trash_view(&self) -> bool {
        self.move_to_trash
    }

    /// The directories opened in tabs at startup.
    pub closed spec fn startup_view(&self) -> Seq<String> {
        self.startup_tabs@
    }

    /// The set of names is well formed.
    pub closed spec fn wf(&self) -> bool {
        self.always_show.wf()
    }

    /// The settings from the file: the names always shown become a set, and the limit of
    /// find results is brought into range.
    pub fn from_general(g: General) -> (r: Self)
        ensures
            r.wf(),
            r.list_view() == (DirListOptions {
                dirs_first: g.dirs_first,
                show_hidden: g.show_hidden,
                show_symlink: g.show_symlink,
                show_system: g.show_system,
                case_insensitive: g.case_insensitive,
            }),
            r.always_show_view() == texts(g.always_show@).to_set(),
            r.max_results_view() == clamped_results(g.max_find_results),
            r.trash_view() == g.move_to_trash,
            r.startup_view() == g.startup_tabs@,
    {
        let mut set = TextSet::new();
        let names = g.always_show;
        let ghost ts = texts(names@);
        let mut i: usize = 0;
        while i < names.len()
            invariant
                i <= names@.len(),
                ts == texts(names@),
                set.wf(),
                set@ == ts.subrange(0, i as int).to_set(),
            decreases names@.len() - i,
        {
            set.insert(names[i].clone());
            proof {
                assert(ts.subrange(0, i + 1) == ts.subrange(0, i as int).push(names@[i as int]@));
                Seq::<Seq<char>>::lemma_to_set_insert_commutes(ts.subrange(0, i as int), names@[i as int]@);
                assert(ts.subrange(0, i as int).push(names@[i as int]@) =~= ts.subrange(0, i as int) + seq![names@[i as int]@]);
            }
            i += 1;
        }
        assert(ts.subrange(0, names@.len() as int) == ts);
        InternalGeneral {
            list: DirListOptions {
                dirs_first: g.dirs_first,
                show_hidden: g.show_hidden,
                show_symlink: g.show_symlink,
                show_system: g.show_system,
                case_insensitive: g.case_insensitive,
            },
            always_show: set,
            max_find_results: clamp_find_results(g.max_find_results),
            move_to_trash: g.move_to_trash,
            startup_tabs: g.startup_tabs,
        }
    }

    /// The listing options.
    pub fn list(&self) -> (r: DirListOptions)
        ensures
            r == self.list_view(),
    {
        self.list
    }

    /// The names always shown.
    pub fn always_show(&self) -> (r: &TextSet)
        ensures
            r@ == self.always_show_view(),
    {
        &self.always_show
    }

    /// The limit of find results.
    pub fn max_find_results(&self) -> (r: usize)
        ensures
            r == self.max_results_view(),
    {
        self.max_find_results
    }

    /// Whether deleting moves to the trash.
    pub fn move_to_trash(&self) -> (r: bool)
        ensures
            r == self.trash_view(),
    {
        self.move_to_trash
    }

    /// The directories opened in tabs at startup.
    pub fn startup_tabs(&self) -> (r: &[String])
        ensures
            r@ == self.startup_view(),
    {
        self.startup_tabs.as_slice()
    }
}

} // verus!
