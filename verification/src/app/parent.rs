//! The parent pane: the entries of the directory above the current one, with the current
//! directory selected, and the tracking of its requests.

use crate::app::requests::after;
use crate::engine::fm::FileEntry;
use crate::engine::listing::entry_views;
use crate::engine::sort::SortConfig;
use crate::utils::{paths_equal, same_path, text_eq};
use vstd::prelude::*;

verus! {

/// The index of the first entry named `name`, if any.
pub open spec fn position_of(es: Seq<(Seq<char>, Seq<char>, u8, Option<Seq<char>>)>, name: Seq<char>) -> Option<int>
    decreases es.len(),
{
    if es.len() == 0 {
        None
    } else {
        match position_of(es.drop_last(), name) {
            Some(i) => Some(i),
            None => if es.last().0 == name {
                Some(es.len() - 1)
            } else {
                None
            },
        }
    }
}

/// The index of the first entry named `name` in `entries`.
pub fn entry_position(entries: &[FileEntry], name: &str) -> (r: Option<usize>)
    ensures
        match r {
            Some(i) => position_of(entry_views(entries@), name@) == Some(i as int),
            None => position_of(entry_views(entries@), name@) is None,
        },
{
    let ghost es = entry_views(entries@);
    let mut i: usize = 0;
    while i < entries.len()
        invariant
            i <= entries@.len(),
            es == entry_views(entries@),
            position_of(es.subrange(0, i as int), name@) is None,
        decreases entries@.len() - i,
    {
        assert(es.subrange(0, i + 1).drop_last() == es.subrange(0, i as int));
        if text_eq(entries[i].name_str(), name) {
            proof {
                lemma_position_prefix(es, i as int + 1, name@);
            }
            return Some(i);
        }
        i += 1;
    }
    assert(es.subrange(0, entries@.len() as int) == es);
    None
}

/// A name first found in a prefix is found at the same place in the whole list.
proof fn lemma_position_prefix(es: Seq<(Seq<char>, Seq<char>, u8, Option<Seq<char>>)>, k: int, name: Seq<char>)
    requires
        0 <= k <= es.len(),
        position_of(es.subrange(0, k), name) is Some,
    ensures
        position_of(es, name) == position_of(es.subrange(0, k), name),
    decreases es.len() - k,
{
    if k < es.len() {
        assert(es.subrange(0, k + 1).drop_last() == es.subrange(0, k));
        lemma_position_prefix(es, k + 1, name);
    } else {
        assert(es.subrange(0, k) == es);
    }
}

/// The state of the parent pane.
pub struct ParentState {
    entries: Vec<FileEntry>,
    sort_column: Option<Vec<String>>,
    selected_idx: Option<usize>,
    last_path: Option<String>,
    last_sort: Option<SortConfig>,
    request_id: u64,
}

impl ParentState {
    /// The entries shown.
    pub closed spec fn entries_view(&self) -> Seq<(Seq<char>, Seq<char>, u8, Option<Seq<char>>)> {
        entry_views(self.entries@)
    }

    /// The entry selected (the current directory), if found.
    pub closed spec fn selected_view(&self) -> Option<usize> {
        self.selected_idx
    }

    /// The directory shown.
    pub closed spec fn path_view(&self) -> Option<Seq<char>> {
        match &self.last_path {
            Some(p) => Some(p@),
            None => None,
        }
    }

    /// The order the entries were sorted in.
    pub closed spec fn sort_view(&self) -> Option<SortConfig> {
        self.last_sort
    }

    /// The texts of the metadata sort column, if the entries were sorted by metadata.
    pub closed spec fn column_view(&self) -> Option<Seq<Seq<char>>> {
        match &self.sort_column {
            Some(c) => Some(c@.map_values(|s: String| s@)),
            None => None,
        }
    }

    /// The id of the latest request.
    pub closed spec fn request_view(&self) -> u64 {
        self.request_id
    }

    /// An empty pane.
    pub fn new() -> (r: Self)
        ensures
            r.entries_view().len() == 0,
            r.selected_view() is None,
            r.path_view() is None,
            r.sort_view() is None,
            r.column_view() is None,
            r.request_view() == 0,
    {
        ParentState {
            entries: Vec::new(),
            sort_column: None,
            selected_idx: None,
            last_path: None,
            last_sort: None,
            request_id: 0,
        }
    }

    /// The id of the latest request.
    pub fn request_id(&self) -> (r: u64)
        ensures
            r == self.request_view(),
    {
        self.request_id
    }

    /// The entries shown.
    pub fn entries(&self) -> (r: &[FileEntry])
        ensures
            entry_views(r@) == self.entries_view(),
    {
        self.entries.as_slice()
    }

    /// The entry selected.
    pub fn selected_idx(&self) -> (r: Option<usize>)
        ensures
            r == self.selected_view(),
    {
        self.selected_idx
    }

    /// The directory shown.
    pub fn last_path(&self) -> (r: Option<&str>)
        ensures
            match r {
                Some(p) => self.path_view() == Some(p@),
                None => self.path_view() is None,
            },
    {
        match &self.last_path {
            Some(p) => Some(p.as_str()),
            None => None,
        }
    }

    /// Whether the pane already shows `parent_path`, sorted by `sort`, with entries.
    pub fn is_cached(&self, parent_path: &str, sort: SortConfig) -> (r: bool)
        ensures
            r == (self.path_view() matches Some(p) && same_path(p, parent_path@) && self.sort_view() == Some(sort)
                && self.entries_view().len() > 0),
    {
        let same = match &self.last_path {
            Some(p) => paths_equal(p.as_str(), parent_path),
            None => false,
        };
        let same_sort = match self.last_sort {
            Some(s) => s == sort,
            None => false,
        };
        same && same_sort && self.entries.len() > 0
    }

    /// Starts a request for `path` sorted by `sort`: a new id (returned).
    pub fn prepare_new_request(&mut self, path: &str, sort: SortConfig) -> (r: u64)
        ensures
            r == after(old(self).request_view()),
            final(self).request_view() == r,
            final(self).path_view() == Some(path@),
            final(self).sort_view() == Some(sort),
            final(self).entries_view() == old(self).entries_view(),
            final(self).selected_view() == old(self).selected_view(),
    {
        self.request_id = self.request_id.wrapping_add(1);
        self.last_path = Some(String::from_str(path));
        self.last_sort = Some(sort);
        self.request_id
    }

    /// Shows `entries` of `parent_path` with the entry named `current_name` selected, unless
    /// they answer an older request than the latest.
    pub fn update_from_entries(
        &mut self,
        entries: Vec<FileEntry>,
        current_name: &str,
        req_id: u64,
        parent_path: &str,
        sort: SortConfig,
        sort_column: Option<Vec<String>>,
    )
        ensures
            req_id < old(self).request_view() ==> final(self).entries_view() == old(self).entries_view()
                && final(self).selected_view() == old(self).selected_view()
                && final(self).path_view() == old(self).path_view()
                && final(self).sort_view() == old(self).sort_view()
                && final(self).column_view() == old(self).column_view()
                && final(self).request_view() == old(self).request_view(),
            req_id >= old(self).request_view() ==> {
                &&& final(self).entries_view() == entry_views(entries@)
                &&& final(self).selected_view() == (match position_of(entry_views(entries@), current_name@) {
                    Some(i) => Some(i as usize),
                    None => None,
                })
                &&& final(self).path_view() == Some(parent_path@)
                &&& final(self).sort_view() == Some(sort)
                &&& final(self).column_view() == (match sort_column {
                    Some(c) => Some(c@.map_values(|s: String| s@)),
                    None => None,
                })
                &&& final(self).request_view() == req_id
            },
    {
        if req_id < self.request_id {
            return;
        }
        self.selected_idx = entry_position(entries.as_slice(), current_name);
        self.entries = entries;
        self.last_path = Some(String::from_str(parent_path));
        self.last_sort = Some(sort);
        self.sort_column = sort_column;
        self.request_id = req_id;
    }

    /// The entries and sort column, where the pane already shows `parent_path` sorted by
    /// `sort`, for another pane to share.
    pub fn try_share_directory(&self, parent_path: &str, sort: SortConfig) -> (r: Option<(&[FileEntry], Option<&Vec<String>>)>)
        ensures
            r is Some == (self.path_view() matches Some(p) && same_path(p, parent_path@) && self.entries_view().len() > 0
                && self.sort_view() == Some(sort)),
            r matches Some((es, _)) ==> entry_views(es@) == self.entries_view(),
    {
        if self.is_cached(parent_path, sort) {
            Some((self.entries.as_slice(), self.sort_column.as_ref()))
        } else {
            None
        }
    }

    /// Empties the pane and makes every request made so far stale.
    pub fn clear(&mut self)
        ensures
            final(self).entries_view().len() == 0,
            final(self).selected_view() is None,
            final(self).path_view() is None,
            final(self).sort_view() is None,
            final(self).request_view() == after(old(self).request_view()),
    {
        self.entries = Vec::new();
        self.selected_idx = None;
        self.last_path = None;
        self.last_sort = None;
        self.request_id = self.request_id.wrapping_add(1);
    }
}

} // verus!
