//! The preview pane: what it shows (a directory's entries, a file's text, or nothing), the
//! entry selected in a directory preview, and the tracking of preview requests.

use crate::engine::listing::entry_views;
use crate::app::requests::after;
use crate::app::timings::PREVIEW_DEBOUNCE_MS;
use crate::engine::fm::FileEntry;
use crate::utils::clock::{duration_as_millis, instant_duration_since, instant_now};
use crate::utils::push_char;
use std::time::Instant;
use vstd::prelude::*;

verus! {

/// What the preview pane shows: a directory's entries, a file's text (lines joined by
/// newlines, possibly with ANSI colour codes), or nothing.
pub enum PreviewData {
    Directory(Vec<FileEntry>),
    File(String),
    Empty,
}

/// The view of preview data.
pub enum PreviewView {
    Directory(Seq<(Seq<char>, Seq<char>, u8, Option<Seq<char>>)>),
    File(Seq<char>),
    Empty,
}

/// The view of preview data.
pub open spec fn preview_view(d: PreviewData) -> PreviewView {
    match d {
        PreviewData::Directory(es) => PreviewView::Directory(entry_views(es@)),
        PreviewData::File(t) => PreviewView::File(t@),
        PreviewData::Empty => PreviewView::Empty,
    }
}

/// The number of items a preview has to select among: its entries, one text, or none.
pub open spec fn selectable(v: PreviewView) -> int {
    match v {
        PreviewView::Directory(es) => es.len() as int,
        PreviewView::File(_) => 1,
        PreviewView::Empty => 0,
    }
}

/// Whether preview data shows nothing: no entries, an empty text, or nothing at all.
pub open spec fn preview_is_empty(v: PreviewView) -> bool {
    match v {
        PreviewView::Directory(es) => es.len() == 0,
        PreviewView::File(t) => t.len() == 0,
        PreviewView::Empty => true,
    }
}

/// Lines joined by newlines.
pub open spec fn joined(lines: Seq<Seq<char>>) -> Seq<char>
    decreases lines.len(),
{
    if lines.len() == 0 {
        Seq::empty()
    } else if lines.len() == 1 {
        lines[0]
    } else {
        joined(lines.drop_last()) + seq!['\n'] + lines.last()
    }
}

impl PreviewData {
    /// Whether the preview shows nothing.
    pub fn is_empty(&self) -> (r: bool)
        ensures
            r == preview_is_empty(preview_view(*self)),
    {
        match self {
            PreviewData::Directory(v) => v.len() == 0,
            PreviewData::File(text) => text.unicode_len() == 0,
            PreviewData::Empty => true,
        }
    }
}

/// The state of the preview pane.
pub struct PreviewState {
    data: PreviewData,
    selected_idx: usize,
    current_path: Option<String>,
    request_id: u64,
    pending: bool,
    last_input_time: Option<Instant>,
}

impl PreviewState {
    /// What the pane shows.
    pub closed spec fn data_view(&self) -> PreviewView {
        preview_view(self.data)
    }

    /// The selected item.
    pub closed spec fn selected_view(&self) -> int {
        self.selected_idx as int
    }

    /// The path previewed.
    pub closed spec fn path_view(&self) -> Option<Seq<char>> {
        match &self.current_path {
            Some(p) => Some(p@),
            None => None,
        }
    }

    /// The id of the latest request.
    pub closed spec fn request_view(&self) -> u64 {
        self.request_id
    }

    /// Whether a preview is waiting to be requested.
    pub closed spec fn pending_view(&self) -> bool {
        self.pending
    }

    /// A pending preview has a time from which its wait is counted.
    pub closed spec fn wf(&self) -> bool {
        self.pending ==> self.last_input_time is Some
    }

    /// An empty pane with nothing requested.
    pub fn new() -> (r: Self)
        ensures
            r.wf(),
            r.data_view() == PreviewView::Empty,
            r.selected_view() == 0,
            r.path_view() is None,
            r.request_view() == 0,
            !r.pending_view(),
    {
        PreviewState {
            data: PreviewData::Empty,
            selected_idx: 0,
            current_path: None,
            request_id: 0,
            pending: false,
            last_input_time: None,
        }
    }

    /// What the pane shows.
    pub fn data(&self) -> (r: &PreviewData)
        ensures
            preview_view(*r) == self.data_view(),
    {
        &self.data
    }

    /// The selected item.
    pub fn selected_idx(&self) -> (r: usize)
        ensures
            r == self.selected_view(),
    {
        self.selected_idx
    }

    /// The id of the latest request.
    pub fn request_id(&self) -> (r: u64)
        ensures
            r == self.request_view(),
    {
        self.request_id
    }

    /// The path previewed.
    pub fn current_path(&self) -> (r: Option<&str>)
        ensures
            match r {
                Some(p) => self.path_view() == Some(p@),
                None => self.path_view() is None,
            },
    {
        match &self.current_path {
            Some(p) => Some(p.as_str()),
            None => None,
        }
    }

    /// Selects item `idx`, kept within the items the preview has (0 when it has none).
    pub fn set_selected_idx(&mut self, idx: usize)
        ensures
            final(self).selected_view() == (if selectable(old(self).data_view()) == 0 {
                0
            } else if idx < selectable(old(self).data_view()) - 1 {
                idx as int
            } else {
                selectable(old(self).data_view()) - 1
            }),
            final(self).data_view() == old(self).data_view(),
            final(self).path_view() == old(self).path_view(),
            final(self).request_view() == old(self).request_view(),
            final(self).pending_view() == old(self).pending_view(),
            final(self).wf() == old(self).wf(),
    {
        let len: usize = match &self.data {
            PreviewData::Directory(entries) => entries.len(),
            PreviewData::File(_) => 1,
            PreviewData::Empty => 0,
        };
        let last = if len > 0 { len - 1 } else { 0 };
        self.selected_idx = if idx < last { idx } else { last };
    }

    /// Marks a preview as waiting to be requested, counting the wait from now.
    pub fn mark_pending(&mut self)
        ensures
            final(self).wf(),
            final(self).pending_view(),
            final(self).data_view() == old(self).data_view(),
            final(self).selected_view() == old(self).selected_view(),
            final(self).path_view() == old(self).path_view(),
            final(self).request_view() == old(self).request_view(),
    {
        self.pending = true;
        self.last_input_time = Some(instant_now());
    }

    /// Whether a pending preview is due, `waited` telling whether more than the debounce has
    /// passed since it was marked.
    pub fn should_trigger_when(&self, waited: bool) -> (r: bool)
        ensures
            r == (self.pending_view() && waited),
    {
        self.pending && waited
    }

    /// Whether a pending preview is due, by the clock (more than 35 ms since it was marked).
    pub fn should_trigger(&self) -> (r: bool)
        requires
            self.wf(),
        ensures
            r ==> self.pending_view(),
    {
        let waited = match &self.last_input_time {
            Some(t) => duration_as_millis(&instant_duration_since(&instant_now(), t)) > PREVIEW_DEBOUNCE_MS as u128,
            None => false,
        };
        self.should_trigger_when(waited)
    }

    /// Starts a request for `path`: a new id (returned), the path recorded, nothing pending.
    pub fn prepare_new_request(&mut self, path: String) -> (r: u64)
        ensures
            r == after(old(self).request_view()),
            final(self).request_view() == r,
            final(self).path_view() == Some(path@),
            !final(self).pending_view(),
            final(self).wf(),
            final(self).data_view() == old(self).data_view(),
            final(self).selected_view() == old(self).selected_view(),
    {
        self.request_id = self.request_id.wrapping_add(1);
        self.current_path = Some(path);
        self.pending = false;
        self.request_id
    }

    /// Shows a file's lines, joined by newlines, if they answer the latest request.
    pub fn update_content(&mut self, lines: Vec<String>, request_id: u64)
        ensures
            request_id == old(self).request_view() ==> final(self).data_view() == PreviewView::File(
                joined(lines@.map_values(|l: String| l@)),
            ),
            request_id != old(self).request_view() ==> final(self).data_view() == old(self).data_view(),
            final(self).selected_view() == old(self).selected_view(),
            final(self).path_view() == old(self).path_view(),
            final(self).request_view() == old(self).request_view(),
            final(self).pending_view() == old(self).pending_view(),
            final(self).wf() == old(self).wf(),
    {
        if request_id == self.request_id {
            let ghost ls = lines@.map_values(|l: String| l@);
            let mut raw = String::new();
            let mut i: usize = 0;
            while i < lines.len()
                invariant
                    i <= lines@.len(),
                    ls == lines@.map_values(|l: String| l@),
                    raw@ == joined(ls.subrange(0, i as int)),
                decreases lines@.len() - i,
            {
                let ghost pre = ls.subrange(0, i as int);
                assert(ls.subrange(0, i + 1).drop_last() == pre);
                assert(ls.subrange(0, i + 1).last() == lines@[i as int]@);
                if i > 0 {
                    push_char(&mut raw, '\n');
                }
                raw.append(lines[i].as_str());
                i += 1;
            }
            assert(ls.subrange(0, lines@.len() as int) == ls);
            self.data = PreviewData::File(raw);
        }
    }

    /// Shows a directory's entries, with the first selected, if they answer the latest request.
    pub fn update_from_entries(&mut self, entries: Vec<FileEntry>, request_id: u64)
        ensures
            request_id == old(self).request_view() ==> final(self).data_view() == PreviewView::Directory(entry_views(entries@))
                && final(self).selected_view() == 0,
            request_id != old(self).request_view() ==> final(self).data_view() == old(self).data_view()
                && final(self).selected_view() == old(self).selected_view(),
            final(self).path_view() == old(self).path_view(),
            final(self).request_view() == old(self).request_view(),
            final(self).pending_view() == old(self).pending_view(),
            final(self).wf() == old(self).wf(),
    {
        if request_id == self.request_id {
            self.data = PreviewData::Directory(entries);
            self.selected_idx = 0;
        }
    }

    /// Shows an error message as the preview.
    pub fn set_error(&mut self, err: String)
        ensures
            final(self).data_view() == PreviewView::File(err@),
            final(self).selected_view() == old(self).selected_view(),
            final(self).path_view() == old(self).path_view(),
            final(self).request_view() == old(self).request_view(),
            final(self).pending_view() == old(self).pending_view(),
            final(self).wf() == old(self).wf(),
    {
        self.data = PreviewData::File(err);
    }

    /// Empties the pane: no data, no path, nothing pending; the request counter stays.
    pub fn clear(&mut self)
        ensures
            final(self).wf(),
            final(self).data_view() == PreviewView::Empty,
            final(self).selected_view() == 0,
            final(self).path_view() is None,
            !final(self).pending_view(),
            final(self).request_view() == old(self).request_view(),
    {
        self.data = PreviewData::Empty;
        self.selected_idx = 0;
        self.current_path = None;
        self.pending = false;
    }
}

impl Default for PreviewState {
    fn default() -> (r: Self)
        ensures
            r.wf(),
            r.data_view() == PreviewView::Empty,
            r.request_view() == 0,
            !r.pending_view(),
    {
        PreviewState::new()
    }
}

/// The selection stays within what the preview shows, whatever index is asked for.
pub proof fn lemma_selection_in_range(v: PreviewView, idx: int, selected: int)
    requires
        selectable(v) > 0,
        0 <= idx,
        selected == (if idx < selectable(v) - 1 { idx } else { selectable(v) - 1 }),
    ensures
        0 <= selected < selectable(v),
{
}

} // verus!
