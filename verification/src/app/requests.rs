//! Bookkeeping of background requests about the selected file: a request counter, the one
//! request still awaited (its id and path), the answer kept for the selection, and when the
//! last request was made.

use crate::app::timings::Throttler;
use crate::utils::{paths_equal, same_path};
use vstd::prelude::*;

verus! {

/// The request counter after handing out one more id.
pub open spec fn after(id: u64) -> u64 {
    if id == u64::MAX { 0 } else { (id + 1) as u64 }
}

/// The tracking of one kind of request about the selected file (metadata, file information,
/// properties), with the kept answer of type `T`.
pub struct RequestState<T> {
    request_id: u64,
    pending: Option<(u64, String)>,
    selected: Option<T>,
    last_request_time: Throttler,
}

impl<T> RequestState<T> {
    /// The next id to hand out.
    pub closed spec fn id_view(&self) -> u64 {
        self.request_id
    }

    /// The request still awaited: its id and path.
    pub closed spec fn pending_view(&self) -> Option<(u64, Seq<char>)> {
        match &self.pending {
            Some(p) => Some((p.0, p.1@)),
            None => None,
        }
    }

    /// The answer kept for the selection.
    pub closed spec fn selected_view(&self) -> Option<T> {
        self.selected
    }

    /// Whether any request has been made.
    pub closed spec fn requested(&self) -> bool {
        self.last_request_time.touched()
    }

    /// No request made or awaited, no answer kept.
    pub fn new() -> (r: Self)
        ensures
            r.id_view() == 0,
            r.pending_view() is None,
            r.selected_view() is None,
            !r.requested(),
    {
        RequestState { request_id: 0, pending: None, selected: None, last_request_time: Throttler::new() }
    }

    /// Hands out the next request id.
    pub fn prepare_new_request(&mut self) -> (r: u64)
        ensures
            r == old(self).id_view(),
            final(self).id_view() == after(old(self).id_view()),
            final(self).pending_view() == old(self).pending_view(),
            final(self).selected_view() == old(self).selected_view(),
            final(self).requested() == old(self).requested(),
    {
        let id = self.request_id;
        self.request_id = self.request_id.wrapping_add(1);
        id
    }

    /// Hands out the next request id and records the request as made now.
    pub fn prepare_timed_request(&mut self) -> (r: u64)
        ensures
            r == old(self).id_view(),
            final(self).id_view() == after(old(self).id_view()),
            final(self).pending_view() == old(self).pending_view(),
            final(self).selected_view() == old(self).selected_view(),
            final(self).requested(),
    {
        self.last_request_time.touch();
        self.prepare_new_request()
    }

    /// Whether the request awaited is about `path`.
    pub fn is_pending_path(&self, path: &str) -> (r: bool)
        ensures
            r == (self.pending_view() matches Some((_, p)) && same_path(p, path@)),
    {
        match &self.pending {
            Some((_, p)) => paths_equal(p.as_str(), path),
            None => false,
        }
    }

    /// Whether a new request may be made: none was made yet, or `elapsed_enough` says the
    /// debounce since the last one has passed.
    pub fn can_request_when(&self, elapsed_enough: bool) -> (r: bool)
        ensures
            r == (!self.requested() || elapsed_enough),
    {
        self.last_request_time.can_trigger_when(elapsed_enough)
    }

    /// Whether `debounce_ms` milliseconds have passed since the last request, by the clock.
    pub fn can_request(&self, debounce_ms: u64) -> (r: bool)
        ensures
            !self.requested() ==> r,
    {
        self.last_request_time.can_trigger(debounce_ms)
    }

    /// Records a request as made now, without handing out an id.
    pub fn touch(&mut self)
        ensures
            final(self).requested(),
            final(self).id_view() == old(self).id_view(),
            final(self).pending_view() == old(self).pending_view(),
            final(self).selected_view() == old(self).selected_view(),
    {
        self.last_request_time.touch();
    }

    /// Records the request awaited.
    pub fn set_pending(&mut self, id: u64, path: String)
        ensures
            final(self).pending_view() == Some((id, path@)),
            final(self).id_view() == old(self).id_view(),
            final(self).selected_view() == old(self).selected_view(),
            final(self).requested() == old(self).requested(),
    {
        self.pending = Some((id, path));
    }

    /// Whether an answer is the one awaited: same id and same path.
    pub fn matches_pending(&self, id: u64, path: &str) -> (r: bool)
        ensures
            r == (self.pending_view() matches Some((pid, p)) && pid == id && same_path(p, path@)),
    {
        match &self.pending {
            Some((pid, p)) => *pid == id && paths_equal(p.as_str(), path),
            None => false,
        }
    }

    /// The answer kept for the selection.
    pub fn selected(&self) -> (r: Option<&T>)
        ensures
            match r {
                Some(t) => self.selected_view() == Some(*t),
                None => self.selected_view() is None,
            },
    {
        self.selected.as_ref()
    }

    /// Keeps an answer for the selection (or none).
    pub fn set_selected(&mut self, meta: Option<T>)
        ensures
            final(self).selected_view() == meta,
            final(self).pending_view() == old(self).pending_view(),
            final(self).id_view() == old(self).id_view(),
            final(self).requested() == old(self).requested(),
    {
        self.selected = meta;
    }

    /// No request is awaited any more.
    pub fn clear_pending(&mut self)
        ensures
            final(self).pending_view() is None,
            final(self).selected_view() == old(self).selected_view(),
            final(self).id_view() == old(self).id_view(),
            final(self).requested() == old(self).requested(),
    {
        self.pending = None;
    }

    /// Forgets the awaited request and the kept answer.
    pub fn clear(&mut self)
        ensures
            final(self).pending_view() is None,
            final(self).selected_view() is None,
            final(self).id_view() == old(self).id_view(),
            final(self).requested() == old(self).requested(),
    {
        self.pending = None;
        self.selected = None;
    }
}

/// Requests for the file metadata shown in the status line (the request is recorded as made
/// with `touch`, once it was sent).
pub type MetadataState<T> = RequestState<T>;

/// Requests for the file information overlay (`prepare_timed_request`).
pub type InfoState<T> = RequestState<T>;

/// Requests for the file properties overlay (`prepare_timed_request`).
pub type PropertyState<T> = RequestState<T>;

/// An answer is taken only while it is the one awaited: after `set_pending(id, path)`, an
/// answer matches exactly when it has that id and path; after `clear_pending`, none matches.
pub proof fn lemma_pending_answers<T>(s: RequestState<T>, id: u64, path: Seq<char>, id2: u64, path2: Seq<char>)
    requires
        s.pending_view() == Some((id, path)),
    ensures
        (s.pending_view() matches Some((pid, p)) && pid == id2 && same_path(p, path2)) == (id == id2 && same_path(path, path2)),
{
}

} // verus!
