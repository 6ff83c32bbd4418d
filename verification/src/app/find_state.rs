//! State of an ongoing fuzzy find: cached results, request counter, debounce deadline,
//! the last query sent and the cancellation token of the running search.

use crate::engine::find::FindResult;
use crate::utils::clock::{instant_after, instant_before, instant_checked_add, instant_now, instant_precedes};
use crate::utils::text_eq;
use std::sync::atomic::{AtomicBool, Ordering};
use std::sync::Arc;
use std::time::{Duration, Instant};
use vstd::prelude::*;

verus! {

/// Tracks the state of an ongoing fuzzy find operation.
pub struct FindState {
    cache: Vec<FindResult>,
    request_id: u64,
    debounce: Option<Instant>,
    last_query: String,
    cancel: Option<Arc<AtomicBool>>,
}

impl FindState {
    /// The cached results.
    pub closed spec fn results_view(&self) -> Seq<FindResult> {
        self.cache@
    }

    /// The request counter.
    pub closed spec fn request_view(&self) -> u64 {
        self.request_id
    }

    /// The debounce deadline, if one is set.
    pub closed spec fn deadline_view(&self) -> Option<Instant> {
        self.debounce
    }

    /// Whether a debounce deadline is set.
    pub open spec fn debouncing(&self) -> bool {
        self.deadline_view() is Some
    }

    /// The last query that was handed out.
    pub closed spec fn last_query_view(&self) -> Seq<char> {
        self.last_query@
    }

    /// Whether a cancellation token is held.
    pub closed spec fn has_cancel(&self) -> bool {
        self.cancel is Some
    }

    /// A state with nothing cached, no deadline and no running search.
    pub fn new() -> (r: Self)
        ensures
            r.results_view().len() == 0,
            r.request_view() == 0,
            !r.debouncing(),
            r.last_query_view().len() == 0,
            !r.has_cancel(),
    {
        FindState { cache: Vec::new(), request_id: 0, debounce: None, last_query: String::new(), cancel: None }
    }

    /// The cached results.
    pub fn results(&self) -> (r: &[FindResult])
        ensures
            r@ == self.results_view(),
    {
        self.cache.as_slice()
    }

    /// The request counter.
    pub fn request_id(&self) -> (r: u64)
        ensures
            r == self.request_view(),
    {
        self.request_id
    }

    /// The debounce deadline, if one is set.
    pub fn debounce(&self) -> (r: &Option<Instant>)
        ensures
            *r == self.deadline_view(),
    {
        &self.debounce
    }

    /// The last query that was handed out.
    pub fn last_query(&self) -> (r: &str)
        ensures
            r@ == self.last_query_view(),
    {
        self.last_query.as_str()
    }

    /// Cancels the running search, if any: raises its token and lets go of it.
    pub fn cancel_current(&mut self)
        ensures
            !final(self).has_cancel(),
            final(self).results_view() == old(self).results_view(),
            final(self).request_view() == old(self).request_view(),
            final(self).deadline_view() == old(self).deadline_view(),
            final(self).last_query_view() == old(self).last_query_view(),
    {
        if let Some(token) = self.cancel.take() {
            token.store(true, Ordering::Relaxed);
        }
    }

    /// Replaces the cached results.
    pub fn set_results(&mut self, results: Vec<FindResult>)
        ensures
            final(self).results_view() == results@,
            final(self).request_view() == old(self).request_view(),
            final(self).deadline_view() == old(self).deadline_view(),
            final(self).last_query_view() == old(self).last_query_view(),
            final(self).has_cancel() == old(self).has_cancel(),
    {
        self.cache = results;
    }

    /// Holds the cancellation token of the search just started.
    pub fn set_cancel(&mut self, token: Arc<AtomicBool>)
        ensures
            final(self).has_cancel(),
            final(self).results_view() == old(self).results_view(),
            final(self).request_view() == old(self).request_view(),
            final(self).deadline_view() == old(self).deadline_view(),
            final(self).last_query_view() == old(self).last_query_view(),
    {
        self.cancel = Some(token);
    }

    /// Empties the cache.
    pub fn clear_results(&mut self)
        ensures
            final(self).results_view().len() == 0,
            final(self).request_view() == old(self).request_view(),
            final(self).deadline_view() == old(self).deadline_view(),
            final(self).last_query_view() == old(self).last_query_view(),
            final(self).has_cancel() == old(self).has_cancel(),
    {
        self.cache.clear();
    }

    /// Bumps the request counter (wrapping) and returns it.
    pub fn next_request_id(&mut self) -> (r: u64)
        ensures
            r == crate::app::nav::next_request(old(self).request_view()),
            final(self).request_view() == r,
            final(self).results_view() == old(self).results_view(),
            final(self).deadline_view() == old(self).deadline_view(),
            final(self).last_query_view() == old(self).last_query_view(),
            final(self).has_cancel() == old(self).has_cancel(),
    {
        self.request_id = if self.request_id == u64::MAX {
            0
        } else {
            self.request_id + 1
        };
        self.request_id
    }

    /// Sets the debounce deadline `delay` from now (from now itself should the clock be
    /// unable to hold the sum).
    pub fn set_debounce(&mut self, delay: Duration)
        ensures
            final(self).deadline_view() matches Some(d) && exists|now: Instant| d == match #[trigger] instant_after(now, delay) {
                Some(t) => t,
                None => now,
            },
            final(self).results_view() == old(self).results_view(),
            final(self).request_view() == old(self).request_view(),
            final(self).last_query_view() == old(self).last_query_view(),
            final(self).has_cancel() == old(self).has_cancel(),
    {
        let now = instant_now();
        let until = match instant_checked_add(&now, delay) {
            Some(t) => t,
            None => now,
        };
        self.debounce = Some(until);
    }

    /// Hands out the query once the debounce deadline is reached (`due`): the deadline is
    /// dropped, and the query is returned unless it equals the last one handed out, in which
    /// case the last query is forgotten and nothing is returned. Without a deadline, or before
    /// it, nothing changes.
    pub fn take_query_when(&mut self, current_query: &str, due: bool) -> (r: Option<String>)
        ensures
            !old(self).debouncing() || !due ==> r is None && final(self).deadline_view() == old(self).deadline_view()
                && final(self).last_query_view() == old(self).last_query_view(),
            old(self).debouncing() && due ==> final(self).deadline_view() is None && (if current_query@ == old(self).last_query_view() {
                r is None && final(self).last_query_view().len() == 0
            } else {
                r matches Some(q) && q@ == current_query@ && final(self).last_query_view() == current_query@
            }),
            final(self).results_view() == old(self).results_view(),
            final(self).request_view() == old(self).request_view(),
            final(self).has_cancel() == old(self).has_cancel(),
    {
        if self.debounce.is_none() || !due {
            return None;
        }
        self.debounce = None;
        if text_eq(current_query, self.last_query.as_str()) {
            self.last_query = String::new();
            return None;
        }
        self.last_query = String::from_str(current_query);
        Some(String::from_str(current_query))
    }

    /// Takes the query if the debounce deadline has passed by the clock (see `take_query_when`).
    pub fn take_query(&mut self, current_query: &str) -> (r: Option<String>)
        ensures
            !old(self).debouncing() ==> r is None && final(self).deadline_view() is None
                && final(self).last_query_view() == old(self).last_query_view(),
            old(self).deadline_view() matches Some(d) ==> (r is None && final(self).deadline_view() == old(self).deadline_view()
                && final(self).last_query_view() == old(self).last_query_view()
                && exists|now: Instant| #[trigger] instant_precedes(now, d)) || (final(self).deadline_view() is None
                && (exists|now: Instant| !#[trigger] instant_precedes(now, d))
                && if current_query@ == old(self).last_query_view() {
                r is None && final(self).last_query_view().len() == 0
            } else {
                r matches Some(q) && q@ == current_query@ && final(self).last_query_view() == current_query@
            }),
            final(self).results_view() == old(self).results_view(),
            final(self).request_view() == old(self).request_view(),
            final(self).has_cancel() == old(self).has_cancel(),
    {
        let due = match &self.debounce {
            Some(until) => {
                let now = instant_now();
                !instant_before(&now, until)
            },
            None => false,
        };
        self.take_query_when(current_query, due)
    }

    /// Cancels the running search and clears the cache, the deadline and the last query.
    pub fn reset(&mut self)
        ensures
            !final(self).has_cancel(),
            final(self).results_view().len() == 0,
            !final(self).debouncing(),
            final(self).last_query_view().len() == 0,
            final(self).request_view() == old(self).request_view(),
    {
        self.cancel_current();
        self.cache.clear();
        self.debounce = None;
        self.last_query = String::new();
    }
}

impl Default for FindState {
    fn default() -> (r: Self)
        ensures
            r.results_view().len() == 0,
            r.request_view() == 0,
            !r.debouncing(),
            r.last_query_view().len() == 0,
            !r.has_cancel(),
    {
        FindState::new()
    }
}

} // verus!
