//! Navigation state of a pane: the current directory, its entries, the selection,
//! marks, the filter and the positions remembered per directory.

use crate::engine::fm::{entry_lowered, entry_name, FileEntry};
use crate::utils::collections::{texts, TextMap, TextSet};
use crate::utils::{contains_text, join_spec, lowercase_text, path_join, text_contains, text_eq, to_lowercase};
use vstd::prelude::*;

verus! {

/// The contents of an optional clipboard.
pub open spec fn clip_view(c: Option<TextSet>) -> Option<Set<Seq<char>>> {
    match c {
        Some(s) => Some(s@),
        None => None,
    }
}

/// The clipboard is absent or sound.
pub open spec fn clip_wf(c: Option<TextSet>) -> bool {
    match c {
        Some(s) => s.wf(),
        None => true,
    }
}

/// `marks` with `p` taken out if it is in, put in if it is not.
pub open spec fn toggled(marks: Set<Seq<char>>, p: Seq<char>) -> Set<Seq<char>> {
    if marks.contains(p) {
        marks.remove(p)
    } else {
        marks.insert(p)
    }
}

/// The request counter after one more request (wrapping at the top).
pub open spec fn next_request(id: u64) -> u64 {
    if id == u64::MAX {
        0
    } else {
        (id + 1) as u64
    }
}

/// Whether the filter `filter` lets `e` be shown: an empty filter shows everything, otherwise
/// the lowercase name must contain the lowercase filter.
pub open spec fn shows(filter: Seq<char>, e: FileEntry) -> bool {
    filter.len() == 0 || contains_text(entry_lowered(e), lowercase_text(filter))
}

/// The indices, in order, of the entries that `filter` shows.
pub open spec fn shown_idx(es: Seq<FileEntry>, filter: Seq<char>) -> Seq<int>
    decreases es.len(),
{
    if es.len() == 0 {
        Seq::empty()
    } else {
        let rest = shown_idx(es.drop_last(), filter);
        if shows(filter, es.last()) {
            rest.push(es.len() - 1)
        } else {
            rest
        }
    }
}

/// The entries that `filter` shows, in order.
pub open spec fn shown_of(es: Seq<FileEntry>, filter: Seq<char>) -> Seq<FileEntry> {
    shown_idx(es, filter).map_values(|i: int| es[i])
}

/// The first position at or after `k` in `list` whose entry is named `name`.
pub open spec fn name_pos(list: Seq<FileEntry>, name: Seq<char>, k: int) -> Option<int>
    decreases list.len() - k,
{
    if k < 0 || k >= list.len() {
        None
    } else if entry_name(list[k]) == name {
        Some(k)
    } else {
        name_pos(list, name, k + 1)
    }
}

/// The position of the first entry of `list` named `name`, or 0.
pub open spec fn name_pos_or_zero(list: Seq<FileEntry>, name: Seq<char>) -> int {
    match name_pos(list, name, 0) {
        Some(p) => p,
        None => 0,
    }
}

/// The selection after one step down a list of `len` shown entries, wrapping to the top.
pub open spec fn step_down(sel: int, len: int) -> int {
    (sel + 1) % len
}

/// The paths of a list of entries in directory `dir`.
pub open spec fn shown_paths(dir: Seq<char>, shown: Seq<FileEntry>) -> Set<Seq<char>> {
    Set::new(|p: Seq<char>| exists|j: int| 0 <= j < shown.len() && p == join_spec(dir, entry_name(#[trigger] shown[j])))
}

/// The selection after one step up a list of `len` shown entries, wrapping to the bottom.
pub open spec fn step_up(sel: int, len: int) -> int {
    if sel == 0 {
        len - 1
    } else {
        sel - 1
    }
}

/// The selection right after loading `entries` for `path`: the focused name if given, else the
/// remembered position, clamped to the list; under a filter, the same entry's place among the
/// shown ones.
pub open spec fn loaded_selection(
    entries: Seq<FileEntry>,
    remembered: Option<usize>,
    focus: Option<Seq<char>>,
    filter: Seq<char>,
) -> int {
    let base: int = match focus {
        Some(f) => name_pos_or_zero(entries, f),
        None => match remembered {
            Some(p) => p as int,
            None => 0,
        },
    };
    let clamped: int = if entries.len() == 0 {
        0
    } else if base < entries.len() - 1 {
        base
    } else {
        entries.len() - 1
    };
    if filter.len() != 0 && entries.len() != 0 {
        name_pos_or_zero(shown_of(entries, filter), entry_name(entries[clamped]))
    } else {
        clamped
    }
}

proof fn lemma_shown_idx_props(es: Seq<FileEntry>, filter: Seq<char>)
    ensures
        shown_idx(es, filter).len() <= es.len(),
        forall|k: int| 0 <= k < shown_idx(es, filter).len() ==> 0 <= #[trigger] shown_idx(es, filter)[k] < es.len(),
        forall|k: int| 0 <= k < shown_idx(es, filter).len() ==> shows(filter, es[#[trigger] shown_idx(es, filter)[k]]),
        forall|a: int, b: int| 0 <= a < b < shown_idx(es, filter).len() ==> #[trigger] shown_idx(es, filter)[a] < #[trigger] shown_idx(es, filter)[b],
    decreases es.len(),
{
    if es.len() > 0 {
        lemma_shown_idx_props(es.drop_last(), filter);
        let rest = shown_idx(es.drop_last(), filter);
        assert forall|k: int| 0 <= k < rest.len() implies es[rest[k]] == es.drop_last()[rest[k]] by {}
    }
}

proof fn lemma_shown_idx_empty_filter(es: Seq<FileEntry>)
    ensures
        shown_idx(es, Seq::empty()).len() == es.len(),
        forall|k: int| 0 <= k < es.len() ==> #[trigger] shown_idx(es, Seq::empty())[k] == k,
    decreases es.len(),
{
    if es.len() > 0 {
        lemma_shown_idx_empty_filter(es.drop_last());
    }
}

proof fn lemma_name_pos_bounds(list: Seq<FileEntry>, name: Seq<char>, k: int)
    ensures
        match name_pos(list, name, k) {
            Some(p) => k <= p < list.len() && 0 <= p && entry_name(list[p]) == name,
            None => true,
        },
    decreases list.len() - k,
{
    if 0 <= k < list.len() && entry_name(list[k]) != name {
        lemma_name_pos_bounds(list, name, k + 1);
    }
}

/// Holds the navigation, selection and file list state of a pane.
pub struct NavState {
    current_dir: String,
    entries: Vec<FileEntry>,
    selected: usize,
    positions: TextMap<usize>,
    markers: TextSet,
    filter: String,
    filters: TextMap<String>,
    request_id: u64,
}

impl NavState {
    /// The current directory.
    pub closed spec fn dir(&self) -> Seq<char> {
        self.current_dir@
    }

    /// The entries of the current directory.
    pub closed spec fn entries_view(&self) -> Seq<FileEntry> {
        self.entries@
    }

    /// The index of the selection among the shown entries.
    pub closed spec fn selected_view(&self) -> int {
        self.selected as int
    }

    /// The remembered selection of each directory.
    pub closed spec fn positions_view(&self) -> Map<Seq<char>, usize> {
        self.positions@
    }

    /// The marked paths.
    pub closed spec fn markers_view(&self) -> Set<Seq<char>> {
        self.markers@
    }

    /// The filter of the current directory.
    pub closed spec fn filter_view(&self) -> Seq<char> {
        self.filter@
    }

    /// The filter remembered for each directory.
    pub closed spec fn filters_view(&self) -> Map<Seq<char>, String> {
        self.filters@
    }

    /// The request counter.
    pub closed spec fn request_view(&self) -> u64 {
        self.request_id
    }

    /// The entries that the filter shows.
    pub open spec fn shown(&self) -> Seq<FileEntry> {
        shown_of(self.entries_view(), self.filter_view())
    }

    /// The selection points into the shown entries (or is 0) and the keyed collections are sound.
    pub closed spec fn wf(&self) -> bool {
        &&& self.positions.wf()
        &&& self.markers.wf()
        &&& self.filters.wf()
        &&& (self.selected == 0 || self.selected < shown_of(self.entries@, self.filter@).len())
    }

    /// The selected entry among the shown ones, if any.
    pub open spec fn selected_spec(&self) -> Option<FileEntry> {
        if 0 <= self.selected_view() < self.shown().len() {
            Some(self.shown()[self.selected_view()])
        } else {
            None
        }
    }

    /// A fresh state for `path`: no entries, no marks, no filter.
    pub fn new(path: String) -> (r: Self)
        ensures
            r.wf(),
            r.dir() == path@,
            r.entries_view().len() == 0,
            r.selected_view() == 0,
            r.positions_view() == Map::<Seq<char>, usize>::empty(),
            r.markers_view() == Set::<Seq<char>>::empty(),
            r.filter_view().len() == 0,
            r.filters_view() == Map::<Seq<char>, String>::empty(),
            r.request_view() == 0,
    {
        NavState {
            current_dir: path,
            entries: Vec::new(),
            selected: 0,
            positions: TextMap::new(),
            markers: TextSet::new(),
            filter: String::new(),
            filters: TextMap::new(),
            request_id: 0,
        }
    }

    /// The current directory.
    pub fn current_dir(&self) -> (r: &str)
        ensures
            r@ == self.dir(),
    {
        self.current_dir.as_str()
    }

    /// All entries of the current directory.
    pub fn entries(&self) -> (r: &[FileEntry])
        ensures
            r@ == self.entries_view(),
    {
        self.entries.as_slice()
    }

    /// The marked paths.
    pub fn markers(&self) -> (r: &TextSet)
        ensures
            r@ == self.markers_view(),
            self.wf() ==> r.wf(),
    {
        &self.markers
    }

    /// The filter of the current directory.
    pub fn filter(&self) -> (r: &str)
        ensures
            r@ == self.filter_view(),
    {
        self.filter.as_str()
    }

    /// The index of the selection among the shown entries.
    pub fn selected_idx(&self) -> (r: usize)
        ensures
            r == self.selected_view(),
    {
        self.selected
    }

    /// The request counter.
    pub fn request_id(&self) -> (r: u64)
        ensures
            r == self.request_view(),
    {
        self.request_id
    }

    /// The remembered selection of `dir`.
    pub fn get_position(&self, dir: &str) -> (r: Option<usize>)
        requires
            self.wf(),
        ensures
            r == (if self.positions_view().contains_key(dir@) {
                Some(self.positions_view()[dir@])
            } else {
                None
            }),
    {
        match self.positions.get(dir) {
            Some(p) => Some(*p),
            None => None,
        }
    }

    /// Starts a new request: bumps the counter and returns it.
    pub fn prepare_new_request(&mut self) -> (r: u64)
        requires
            old(self).wf(),
        ensures
            final(self).wf(),
            r == next_request(old(self).request_view()),
            final(self).request_view() == r,
            final(self).dir() == old(self).dir(),
            final(self).entries_view() == old(self).entries_view(),
            final(self).selected_view() == old(self).selected_view(),
            final(self).positions_view() == old(self).positions_view(),
            final(self).markers_view() == old(self).markers_view(),
            final(self).filter_view() == old(self).filter_view(),
            final(self).filters_view() == old(self).filters_view(),
    {
        self.request_id = if self.request_id == u64::MAX {
            0
        } else {
            self.request_id + 1
        };
        self.request_id
    }

    /// The indices of the shown entries, in order.
    fn shown_indices_impl(entries: &Vec<FileEntry>, filter: &String) -> (r: Vec<usize>)
        ensures
            r@.len() == shown_idx(entries@, filter@).len(),
            forall|k: int| 0 <= k < r@.len() ==> r@[k] as int == #[trigger] shown_idx(entries@, filter@)[k],
            forall|k: int| 0 <= k < r@.len() ==> (#[trigger] r@[k]) < entries@.len()
                && shown_of(entries@, filter@)[k] == entries@[r@[k] as int],
    {
        let filter_lower = to_lowercase(filter.as_str());
        let empty = filter.unicode_len() == 0;
        let mut out: Vec<usize> = Vec::new();
        let mut i: usize = 0;
        while i < entries.len()
            invariant
                i <= entries@.len(),
                filter_lower@ == lowercase_text(filter@),
                empty == (filter@.len() == 0),
                out@.len() == shown_idx(entries@.subrange(0, i as int), filter@).len(),
                forall|k: int| 0 <= k < out@.len() ==> out@[k] as int == #[trigger] shown_idx(entries@.subrange(0, i as int), filter@)[k],
            decreases entries@.len() - i,
        {
            let keep = empty || text_contains(entries[i].lowered(), filter_lower.as_str());
            assert(entries@.subrange(0, i + 1).drop_last() =~= entries@.subrange(0, i as int));
            assert(entries@.subrange(0, i + 1).last() == entries@[i as int]);
            assert(keep == shows(filter@, entries@[i as int]));
            if keep {
                out.push(i);
            }
            i += 1;
        }
        assert(entries@.subrange(0, entries@.len() as int) =~= entries@);
        proof {
            lemma_shown_idx_props(entries@, filter@);
        }
        assert forall|k: int| 0 <= k < out@.len() implies (#[trigger] out@[k]) < entries@.len()
            && shown_of(entries@, filter@)[k] == entries@[out@[k] as int] by {
            assert(out@[k] as int == shown_idx(entries@, filter@)[k]);
        }
        out
    }

    /// The indices of the entries that the filter shows, in order.
    pub fn shown_indices(&self) -> (r: Vec<usize>)
        ensures
            r@.len() == self.shown().len(),
            forall|k: int| 0 <= k < r@.len() ==> self.shown()[k] == self.entries_view()[#[trigger] r@[k] as int],
            forall|k: int| 0 <= k < r@.len() ==> #[trigger] r@[k] < self.entries_view().len(),
    {
        proof {
            lemma_shown_idx_props(self.entries@, self.filter@);
        }
        let r = Self::shown_indices_impl(&self.entries, &self.filter);
        assert forall|k: int| 0 <= k < r@.len() implies #[trigger] r@[k] < self.entries_view().len() by {
            assert(r@[k] as int == shown_idx(self.entries@, self.filter@)[k]);
        }
        r
    }

    /// The number of entries that the filter shows.
    pub fn shown_entries_len(&self) -> (r: usize)
        ensures
            r == self.shown().len(),
    {
        let idx = Self::shown_indices_impl(&self.entries, &self.filter);
        idx.len()
    }

    /// The selected entry among the shown ones.
    pub fn selected_shown_entry(&self) -> (r: Option<&FileEntry>)
        ensures
            match r {
                Some(e) => self.selected_spec() == Some(*e),
                None => self.selected_spec() is None,
            },
    {
        proof {
            lemma_shown_idx_props(self.entries@, self.filter@);
        }
        let idx = Self::shown_indices_impl(&self.entries, &self.filter);
        if self.selected < idx.len() {
            Some(&self.entries[idx[self.selected]])
        } else {
            None
        }
    }

    /// The selected entry among the shown ones.
    pub fn selected_entry(&self) -> (r: Option<&FileEntry>)
        ensures
            match r {
                Some(e) => self.selected_spec() == Some(*e),
                None => self.selected_spec() is None,
            },
    {
        self.selected_shown_entry()
    }

    /// The first position among `idx`-selected entries whose name is `name`.
    fn find_name(entries: &Vec<FileEntry>, idx: &Vec<usize>, name: &str, Ghost(list): Ghost<Seq<FileEntry>>) -> (r: Option<usize>)
        requires
            list.len() == idx@.len(),
            forall|k: int| 0 <= k < idx@.len() ==> (#[trigger] idx@[k]) < entries@.len() && list[k] == entries@[idx@[k] as int],
        ensures
            match name_pos(list, name@, 0) {
                Some(p) => r == Some(p as usize),
                None => r is None,
            },
    {
        let mut k: usize = 0;
        while k < idx.len()
            invariant
                k <= idx@.len(),
                list.len() == idx@.len(),
                forall|m: int| 0 <= m < idx@.len() ==> (#[trigger] idx@[m]) < entries@.len() && list[m] == entries@[idx@[m] as int],
                name_pos(list, name@, 0) == name_pos(list, name@, k as int),
            decreases idx@.len() - k,
        {
            assert(list[k as int] == entries@[idx@[k as int] as int]);
            if text_eq(entries[idx[k]].name(), name) {
                return Some(k);
            }
            k += 1;
        }
        None
    }

    /// The first position in `entries` whose name is `name`.
    fn find_name_all(entries: &Vec<FileEntry>, name: &str) -> (r: Option<usize>)
        ensures
            match name_pos(entries@, name@, 0) {
                Some(p) => r == Some(p as usize),
                None => r is None,
            },
    {
        let mut k: usize = 0;
        while k < entries.len()
            invariant
                k <= entries@.len(),
                name_pos(entries@, name@, 0) == name_pos(entries@, name@, k as int),
            decreases entries@.len() - k,
        {
            if text_eq(entries[k].name(), name) {
                return Some(k);
            }
            k += 1;
        }
        None
    }

    /// Moves the selection up one shown entry, wrapping to the bottom.
    /// Returns false (and changes nothing) when nothing is shown.
    pub fn move_up(&mut self) -> (r: bool)
        requires
            old(self).wf(),
        ensures
            final(self).wf(),
            r == (old(self).shown().len() > 0),
            r ==> final(self).selected_view() == step_up(old(self).selected_view(), old(self).shown().len() as int),
            !r ==> final(self).selected_view() == old(self).selected_view(),
            final(self).dir() == old(self).dir(),
            final(self).entries_view() == old(self).entries_view(),
            final(self).positions_view() == old(self).positions_view(),
            final(self).markers_view() == old(self).markers_view(),
            final(self).filter_view() == old(self).filter_view(),
            final(self).filters_view() == old(self).filters_view(),
            final(self).request_view() == old(self).request_view(),
    {
        let len = self.shown_entries_len();
        if len == 0 {
            return false;
        }
        if self.selected == 0 {
            self.selected = len - 1;
        } else {
            self.selected -= 1;
        }
        true
    }

    /// Moves the selection down one shown entry, wrapping to the top.
    /// Returns false (and changes nothing) when nothing is shown.
    pub fn move_down(&mut self) -> (r: bool)
        requires
            old(self).wf(),
        ensures
            final(self).wf(),
            r == (old(self).shown().len() > 0),
            r ==> final(self).selected_view() == step_down(old(self).selected_view(), old(self).shown().len() as int),
            !r ==> final(self).selected_view() == old(self).selected_view(),
            final(self).dir() == old(self).dir(),
            final(self).entries_view() == old(self).entries_view(),
            final(self).positions_view() == old(self).positions_view(),
            final(self).markers_view() == old(self).markers_view(),
            final(self).filter_view() == old(self).filter_view(),
            final(self).filters_view() == old(self).filters_view(),
            final(self).request_view() == old(self).request_view(),
    {
        let len = self.shown_entries_len();
        if len == 0 {
            return false;
        }
        self.selected = (self.selected + 1) % len;
        true
    }

    /// Selects the first shown entry.
    pub fn first_selected(&mut self)
        requires
            old(self).wf(),
        ensures
            final(self).wf(),
            final(self).selected_view() == 0,
            final(self).dir() == old(self).dir(),
            final(self).entries_view() == old(self).entries_view(),
            final(self).positions_view() == old(self).positions_view(),
            final(self).markers_view() == old(self).markers_view(),
            final(self).filter_view() == old(self).filter_view(),
            final(self).filters_view() == old(self).filters_view(),
            final(self).request_view() == old(self).request_view(),
    {
        self.selected = 0;
    }

    /// Selects the last shown entry; with nothing shown the selection stays.
    pub fn last_selected(&mut self)
        requires
            old(self).wf(),
        ensures
            final(self).wf(),
            final(self).selected_view() == (if old(self).shown().len() > 0 {
                old(self).shown().len() - 1
            } else {
                old(self).selected_view()
            }),
            final(self).dir() == old(self).dir(),
            final(self).entries_view() == old(self).entries_view(),
            final(self).positions_view() == old(self).positions_view(),
            final(self).markers_view() == old(self).markers_view(),
            final(self).filter_view() == old(self).filter_view(),
            final(self).filters_view() == old(self).filters_view(),
            final(self).request_view() == old(self).request_view(),
    {
        let len = self.shown_entries_len();
        if len > 0 {
            self.selected = len - 1;
        }
    }

    /// Marks every shown entry; marks already set stay.
    pub fn select_all(&mut self)
        requires
            old(self).wf(),
        ensures
            final(self).wf(),
            final(self).markers_view() == old(self).markers_view().union(shown_paths(old(self).dir(), old(self).shown())),
            final(self).selected_view() == old(self).selected_view(),
            final(self).dir() == old(self).dir(),
            final(self).entries_view() == old(self).entries_view(),
            final(self).positions_view() == old(self).positions_view(),
            final(self).filter_view() == old(self).filter_view(),
            final(self).filters_view() == old(self).filters_view(),
            final(self).request_view() == old(self).request_view(),
    {
        let idx = self.shown_indices();
        let ghost shown = self.shown();
        let ghost marks0 = self.markers_view();
        let mut k: usize = 0;
        while k < idx.len()
            invariant
                self.wf(),
                k <= idx@.len(),
                idx@.len() == shown.len(),
                shown == self.shown(),
                forall|j: int| 0 <= j < idx@.len() ==> shown[j] == self.entries_view()[#[trigger] idx@[j] as int],
                forall|j: int| 0 <= j < idx@.len() ==> #[trigger] idx@[j] < self.entries_view().len(),
                self.markers_view() == marks0.union(shown_paths(self.dir(), shown.subrange(0, k as int))),
                self.selected_view() == old(self).selected_view(),
                self.dir() == old(self).dir(),
                self.entries_view() == old(self).entries_view(),
                self.positions_view() == old(self).positions_view(),
                self.filter_view() == old(self).filter_view(),
                self.filters_view() == old(self).filters_view(),
                self.request_view() == old(self).request_view(),
            decreases idx@.len() - k,
        {
            let i = idx[k];
            let path = path_join(self.current_dir.as_str(), self.entries[i].name());
            self.markers.insert(path);
            proof {
                let before = shown_paths(self.dir(), shown.subrange(0, k as int));
                let after = shown_paths(self.dir(), shown.subrange(0, k + 1));
                assert(after =~= before.insert(join_spec(self.dir(), entry_name(shown[k as int])))) by {
                    assert forall|p: Seq<char>| after.contains(p) implies before.insert(join_spec(self.dir(), entry_name(shown[k as int]))).contains(p) by {
                        let j = choose|j: int| 0 <= j < k + 1 && p == join_spec(self.dir(), entry_name(#[trigger] shown.subrange(0, k + 1)[j]));
                        if j < k {
                            assert(shown.subrange(0, k as int)[j] == shown.subrange(0, k + 1)[j]);
                        }
                    }
                    assert forall|p: Seq<char>| before.insert(join_spec(self.dir(), entry_name(shown[k as int]))).contains(p) implies after.contains(p) by {
                        if p == join_spec(self.dir(), entry_name(shown[k as int])) {
                            assert(shown.subrange(0, k + 1)[k as int] == shown[k as int]);
                        } else {
                            let j = choose|j: int| 0 <= j < k && p == join_spec(self.dir(), entry_name(#[trigger] shown.subrange(0, k as int)[j]));
                            assert(shown.subrange(0, k + 1)[j] == shown.subrange(0, k as int)[j]);
                        }
                    }
                }
            }
            k += 1;
        }
        assert(shown.subrange(0, shown.len() as int) =~= shown);
    }

    /// Remembers the selection for the current directory (when it has entries).
    pub fn save_position(&mut self)
        requires
            old(self).wf(),
        ensures
            final(self).wf(),
            final(self).positions_view() == (if old(self).entries_view().len() > 0 {
                old(self).positions_view().insert(old(self).dir(), old(self).selected_view() as usize)
            } else {
                old(self).positions_view()
            }),
            final(self).dir() == old(self).dir(),
            final(self).entries_view() == old(self).entries_view(),
            final(self).selected_view() == old(self).selected_view(),
            final(self).markers_view() == old(self).markers_view(),
            final(self).filter_view() == old(self).filter_view(),
            final(self).filters_view() == old(self).filters_view(),
            final(self).request_view() == old(self).request_view(),
    {
        if self.entries.len() > 0 {
            let dir = self.current_dir.clone();
            self.positions.insert(dir, self.selected);
        }
    }

    /// Moves to `path`: remembers the selection of the old directory, clears the entries and
    /// the selection, and starts a new request, so that answers to requests for the old
    /// directory no longer match.
    pub fn set_path(&mut self, path: String)
        requires
            old(self).wf(),
        ensures
            final(self).wf(),
            final(self).dir() == path@,
            final(self).positions_view() == (if old(self).entries_view().len() > 0 {
                old(self).positions_view().insert(old(self).dir(), old(self).selected_view() as usize)
            } else {
                old(self).positions_view()
            }),
            final(self).request_view() == next_request(old(self).request_view()),
            final(self).entries_view().len() == 0,
            final(self).selected_view() == 0,
            final(self).markers_view() == old(self).markers_view(),
            final(self).filter_view() == old(self).filter_view(),
            final(self).filters_view() == old(self).filters_view(),
    {
        self.save_position();
        self.current_dir = path;
        self.entries = Vec::new();
        self.selected = 0;
        self.request_id = if self.request_id == u64::MAX {
            0
        } else {
            self.request_id + 1
        };
    }

    /// Removes every mark.
    pub fn clear_markers(&mut self)
        requires
            old(self).wf(),
        ensures
            final(self).wf(),
            final(self).markers_view() == Set::<Seq<char>>::empty(),
            final(self).dir() == old(self).dir(),
            final(self).entries_view() == old(self).entries_view(),
            final(self).selected_view() == old(self).selected_view(),
            final(self).positions_view() == old(self).positions_view(),
            final(self).filter_view() == old(self).filter_view(),
            final(self).filters_view() == old(self).filters_view(),
            final(self).request_view() == old(self).request_view(),
    {
        self.markers.clear();
    }

    /// The path of the selected shown entry.
    pub open spec fn selected_path(&self) -> Option<Seq<char>> {
        match self.selected_spec() {
            Some(e) => Some(join_spec(self.dir(), entry_name(e))),
            None => None,
        }
    }

    /// Marks or unmarks the selected entry. An entry that is on the clipboard is taken off the
    /// clipboard and marked instead.
    pub fn toggle_marker(&mut self, clipboard: &mut Option<TextSet>)
        requires
            old(self).wf(),
            clip_wf(*old(clipboard)),
        ensures
            final(self).wf(),
            clip_wf(*final(clipboard)),
            match old(self).selected_path() {
                None => final(self).markers_view() == old(self).markers_view()
                    && clip_view(*final(clipboard)) == clip_view(*old(clipboard)),
                Some(p) => match clip_view(*old(clipboard)) {
                    Some(c) if c.contains(p) => clip_view(*final(clipboard)) == Some(c.remove(p))
                        && final(self).markers_view() == old(self).markers_view().insert(p),
                    _ => clip_view(*final(clipboard)) == clip_view(*old(clipboard))
                        && final(self).markers_view() == toggled(old(self).markers_view(), p),
                },
            },
            final(self).dir() == old(self).dir(),
            final(self).entries_view() == old(self).entries_view(),
            final(self).selected_view() == old(self).selected_view(),
            final(self).positions_view() == old(self).positions_view(),
            final(self).filter_view() == old(self).filter_view(),
            final(self).filters_view() == old(self).filters_view(),
            final(self).request_view() == old(self).request_view(),
    {
        let path = match self.selected_shown_entry() {
            Some(entry) => path_join(self.current_dir.as_str(), entry.name()),
            None => {
                return;
            },
        };
        let taken = match clipboard {
            Some(clip) => clip.remove(path.as_str()),
            None => false,
        };
        if taken {
            self.markers.insert(path);
            return;
        }
        if !self.markers.remove(path.as_str()) {
            self.markers.insert(path);
        }
    }

    /// Toggles the mark of the selected entry, then moves the selection down one; at the bottom
    /// it jumps to the top when `jump` is set and more than one entry is shown.
    pub fn toggle_marker_advance(&mut self, clipboard: &mut Option<TextSet>, jump: bool)
        requires
            old(self).wf(),
            clip_wf(*old(clipboard)),
        ensures
            final(self).wf(),
            clip_wf(*final(clipboard)),
            match old(self).selected_path() {
                None => final(self).markers_view() == old(self).markers_view()
                    && clip_view(*final(clipboard)) == clip_view(*old(clipboard)),
                Some(p) => match clip_view(*old(clipboard)) {
                    Some(c) if c.contains(p) => clip_view(*final(clipboard)) == Some(c.remove(p))
                        && final(self).markers_view() == old(self).markers_view().insert(p),
                    _ => clip_view(*final(clipboard)) == clip_view(*old(clipboard))
                        && final(self).markers_view() == toggled(old(self).markers_view(), p),
                },
            },
            final(self).selected_view() == (if old(self).shown().len() == 0 {
                old(self).selected_view()
            } else if old(self).selected_view() == old(self).shown().len() - 1 {
                if jump && old(self).shown().len() > 1 {
                    0
                } else {
                    old(self).selected_view()
                }
            } else {
                old(self).selected_view() + 1
            }),
            final(self).dir() == old(self).dir(),
            final(self).entries_view() == old(self).entries_view(),
            final(self).positions_view() == old(self).positions_view(),
            final(self).filter_view() == old(self).filter_view(),
            final(self).filters_view() == old(self).filters_view(),
            final(self).request_view() == old(self).request_view(),
    {
        self.toggle_marker(clipboard);
        let count = self.shown_entries_len();
        if count == 0 {
            return;
        }
        if self.selected == count - 1 {
            if jump && count > 1 {
                self.selected = 0;
            }
        } else {
            self.selected = self.selected + 1;
        }
    }

    /// What an action works on: the marked paths, or else the selected entry's path.
    pub fn get_action_targets(&self) -> (r: Vec<String>)
        requires
            self.wf(),
        ensures
            texts(r@).no_duplicates(),
            texts(r@).to_set() == (if self.markers_view().len() == 0 {
                match self.selected_path() {
                    Some(p) => Set::<Seq<char>>::empty().insert(p),
                    None => Set::<Seq<char>>::empty(),
                }
            } else {
                self.markers_view()
            }),
    {
        if self.markers.is_empty() {
            let mut out: Vec<String> = Vec::new();
            match self.selected_entry() {
                Some(e) => {
                    let p = path_join(self.current_dir.as_str(), e.name());
                    out.push(p);
                    assert(texts(out@) =~= seq![out@[0]@]);
                    assert forall|x: Seq<char>| texts(out@).to_set().contains(x) <==> x == out@[0]@ by {
                        if x == out@[0]@ {
                            assert(texts(out@)[0] == x);
                        }
                    }
                    assert(texts(out@).to_set() =~= Set::<Seq<char>>::empty().insert(out@[0]@));
                },
                None => {
                    assert(texts(out@).to_set() =~= Set::<Seq<char>>::empty());
                },
            }
            out
        } else {
            self.markers.to_vec()
        }
    }

    /// Records the current filter as the filter of the current directory (an empty filter
    /// forgets the directory's entry).
    fn save_filter_for_current_dir(&mut self)
        requires
            old(self).filters.wf(),
        ensures
            final(self).filters.wf(),
            final(self).filters_view() == (if old(self).filter_view().len() == 0 {
                old(self).filters_view().remove(old(self).dir())
            } else {
                old(self).filters_view().insert(old(self).dir(), old(self).filter)
            }),
            final(self).current_dir == old(self).current_dir,
            final(self).entries == old(self).entries,
            final(self).selected == old(self).selected,
            final(self).positions == old(self).positions,
            final(self).markers == old(self).markers,
            final(self).filter == old(self).filter,
            final(self).request_id == old(self).request_id,
    {
        if self.filter.unicode_len() == 0 {
            self.filters.remove(self.current_dir.as_str());
        } else {
            let dir = self.current_dir.clone();
            let f = self.filter.clone();
            self.filters.insert(dir, f);
        }
    }

    /// Sets the filter. The entry that was selected stays selected if the new filter shows it;
    /// otherwise the first shown entry is selected. The filter is remembered for the directory.
    pub fn set_filter(&mut self, filter: String)
        requires
            old(self).wf(),
        ensures
            final(self).wf(),
            old(self).filter_view() == filter@ ==> *final(self) == *old(self),
            old(self).filter_view() != filter@ ==> {
                &&& final(self).filter_view() == filter@
                &&& final(self).filters_view() == (if filter@.len() == 0 {
                    old(self).filters_view().remove(old(self).dir())
                } else {
                    old(self).filters_view().insert(old(self).dir(), filter)
                })
                &&& final(self).selected_view() == (match old(self).selected_spec() {
                    Some(e) => name_pos_or_zero(final(self).shown(), entry_name(e)),
                    None => 0,
                })
                &&& final(self).dir() == old(self).dir()
                &&& final(self).entries_view() == old(self).entries_view()
                &&& final(self).positions_view() == old(self).positions_view()
                &&& final(self).markers_view() == old(self).markers_view()
                &&& final(self).request_view() == old(self).request_view()
            },
    {
        if text_eq(self.filter.as_str(), filter.as_str()) {
            return;
        }
        let target: Option<String> = match self.selected_shown_entry() {
            Some(e) => Some(String::from_str(e.name())),
            None => None,
        };
        self.filter = filter;
        self.save_filter_for_current_dir();
        proof {
            lemma_shown_idx_props(self.entries@, self.filter@);
        }
        let idx = Self::shown_indices_impl(&self.entries, &self.filter);
        let new_idx = match &target {
            Some(name) => Self::find_name(&self.entries, &idx, name.as_str(), Ghost(self.shown())),
            None => None,
        };
        proof {
            let tname: Seq<char> = match &target {
                Some(t) => t@,
                None => Seq::empty(),
            };
            lemma_name_pos_bounds(self.shown(), tname, 0);
        }
        self.selected = match new_idx {
            Some(p) => p,
            None => 0,
        };
    }

    /// Clears the filter (and forgets the directory's remembered filter).
    pub fn clear_filters(&mut self)
        requires
            old(self).wf(),
        ensures
            final(self).wf(),
            final(self).filter_view().len() == 0,
            final(self).filters_view() == old(self).filters_view().remove(old(self).dir()),
            final(self).selected_view() == old(self).selected_view(),
            final(self).dir() == old(self).dir(),
            final(self).entries_view() == old(self).entries_view(),
            final(self).positions_view() == old(self).positions_view(),
            final(self).markers_view() == old(self).markers_view(),
            final(self).request_view() == old(self).request_view(),
    {
        proof {
            lemma_shown_idx_props(self.entries@, self.filter@);
            lemma_shown_idx_empty_filter(self.entries@);
        }
        self.filter = String::new();
        assert(self.filter@ =~= Seq::<char>::empty());
        self.save_filter_for_current_dir();
    }

    /// Takes in a freshly loaded listing of `path`: restores the directory's filter, then
    /// selects the focused name if one is given, else the remembered position, kept inside
    /// the list and, under a filter, moved to the same entry's place among the shown ones.
    pub fn update_from_worker(&mut self, path: String, entries: Vec<FileEntry>, focus: Option<String>)
        requires
            old(self).wf(),
        ensures
            final(self).wf(),
            final(self).dir() == path@,
            final(self).entries_view() == entries@,
            final(self).filter_view() == (if old(self).filters_view().contains_key(path@) {
                old(self).filters_view()[path@]@
            } else {
                Seq::<char>::empty()
            }),
            final(self).selected_view() == loaded_selection(
                entries@,
                if old(self).positions_view().contains_key(path@) {
                    Some(old(self).positions_view()[path@])
                } else {
                    None
                },
                match focus {
                    Some(f) => Some(f@),
                    None => None,
                },
                final(self).filter_view(),
            ),
            final(self).positions_view() == old(self).positions_view(),
            final(self).markers_view() == old(self).markers_view(),
            final(self).filters_view() == old(self).filters_view(),
            final(self).request_view() == old(self).request_view(),
    {
        self.current_dir = path;
        self.entries = entries;
        self.filter = match self.filters.get(self.current_dir.as_str()) {
            Some(f) => f.clone(),
            None => String::new(),
        };
        let base: usize = match &focus {
            Some(f) => match Self::find_name_all(&self.entries, f.as_str()) {
                Some(p) => p,
                None => 0,
            },
            None => match self.positions.get(self.current_dir.as_str()) {
                Some(p) => *p,
                None => 0,
            },
        };
        proof {
            match focus {
                Some(f) => lemma_name_pos_bounds(self.entries@, f@, 0),
                None => {},
            }
        }
        let len = self.entries.len();
        let mut sel: usize = if len == 0 {
            0
        } else if base < len - 1 {
            base
        } else {
            len - 1
        };
        if self.filter.unicode_len() != 0 && len != 0 {
            proof {
                lemma_shown_idx_props(self.entries@, self.filter@);
            }
            let idx = Self::shown_indices_impl(&self.entries, &self.filter);
            let name = String::from_str(self.entries[sel].name());
            let found = Self::find_name(&self.entries, &idx, name.as_str(), Ghost(shown_of(self.entries@, self.filter@)));
            proof {
                lemma_name_pos_bounds(shown_of(self.entries@, self.filter@), name@, 0);
            }
            sel = match found {
                Some(p) => p,
                None => 0,
            };
        } else {
            proof {
                lemma_shown_idx_empty_filter(self.entries@);
                if self.filter@.len() == 0 {
                    assert(self.filter@ =~= Seq::<char>::empty());
                }
            }
        }
        self.selected = sel;
    }
}

} // verus!

verus! {

/// Moving down and then up (or up and then down) returns to the same shown entry.
pub proof fn lemma_step_down_up_inverse(sel: int, len: int)
    requires
        0 <= sel < len,
    ensures
        step_up(step_down(sel, len), len) == sel,
        step_down(step_up(sel, len), len) == sel,
{
    if sel + 1 < len {
        vstd::arithmetic::div_mod::lemma_small_mod((sel + 1) as nat, len as nat);
    } else {
        vstd::arithmetic::div_mod::lemma_mod_self_0(len);
    }
    if sel == 0 {
        vstd::arithmetic::div_mod::lemma_mod_self_0(len);
    } else {
        vstd::arithmetic::div_mod::lemma_small_mod(sel as nat, len as nat);
    }
}

/// Moving down stays inside the list of shown entries.
pub proof fn lemma_step_down_in_range(sel: int, len: int)
    requires
        0 <= sel < len,
    ensures
        0 <= step_down(sel, len) < len,
{
}

/// `n` steps down from the top land on entry `n mod len`.
pub proof fn lemma_steps_down_from_top(n: nat, len: int)
    requires
        len > 0,
    ensures
        steps_down(0, len, n) == (n as int) % len,
    decreases n,
{
    if n > 0 {
        lemma_steps_down_from_top((n - 1) as nat, len);
        let m = (n - 1) as int;
        let prev = m % len;
        vstd::arithmetic::div_mod::lemma_mod_bound(m, len);
        vstd::arithmetic::div_mod::lemma_add_mod_noop(m, 1, len);
        if len > 1 {
            vstd::arithmetic::div_mod::lemma_small_mod(1, len as nat);
            assert(1int % len == 1);
            assert((prev + 1) % len == (m + 1) % len);
        } else {
            vstd::arithmetic::div_mod::lemma_mod_bound(m + 1, len);
            vstd::arithmetic::div_mod::lemma_mod_bound(prev + 1, len);
            assert((prev + 1) % len == 0);
            assert((m + 1) % len == 0);
        }
        assert(m + 1 == n as int);
        assert(steps_down(0, len, (n - 1) as nat) == prev);
        assert(steps_down(0, len, n) == step_down(prev, len));
    } else {
        vstd::arithmetic::div_mod::lemma_small_mod(0, len as nat);
    }
}

/// The selection after `n` steps down from `sel`.
pub open spec fn steps_down(sel: int, len: int, n: nat) -> int
    decreases n,
{
    if n == 0 {
        sel
    } else {
        step_down(steps_down(sel, len, (n - 1) as nat), len)
    }
}

/// Coming back to a directory selects the entry that was selected on leaving it, when nothing
/// is focused, no filter is remembered and the listing still has that many entries.
pub proof fn lemma_return_restores_selection(
    entries: Seq<FileEntry>,
    positions: Map<Seq<char>, usize>,
    dir: Seq<char>,
    sel: usize,
)
    requires
        sel < entries.len(),
    ensures
        loaded_selection(
            entries,
            Some(positions.insert(dir, sel)[dir]),
            None,
            Seq::empty(),
        ) == sel,
{
}

/// Under a new filter, the entry that was selected is selected again when it is still shown.
pub proof fn lemma_filter_keeps_selection(shown: Seq<FileEntry>, e: FileEntry)
    requires
        shown.contains(e),
    ensures
        0 <= name_pos_or_zero(shown, entry_name(e)) < shown.len(),
        entry_name(shown[name_pos_or_zero(shown, entry_name(e))]) == entry_name(e),
{
    let k = choose|k: int| 0 <= k < shown.len() && shown[k] == e;
    lemma_name_pos_before(shown, entry_name(e), 0, k);
    lemma_name_pos_bounds(shown, entry_name(e), 0);
}

proof fn lemma_name_pos_before(list: Seq<FileEntry>, name: Seq<char>, from: int, k: int)
    requires
        0 <= from <= k < list.len(),
        entry_name(list[k]) == name,
    ensures
        name_pos(list, name, from) is Some,
    decreases k - from,
{
    if entry_name(list[from]) != name {
        lemma_name_pos_before(list, name, from + 1, k);
    }
}

/// Toggling the same mark twice leaves the marks as they were.
pub proof fn lemma_toggle_twice(marks: Set<Seq<char>>, p: Seq<char>)
    ensures
        toggled(toggled(marks, p), p) == marks,
{
    if marks.contains(p) {
        assert(marks.remove(p).insert(p) =~= marks);
    } else {
        assert(marks.insert(p).remove(p) =~= marks);
    }
}

} // verus!
