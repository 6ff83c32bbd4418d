//! Throttling of repeated requests by the time since the last one.

use crate::utils::clock::{duration_at_most, duration_from_millis, instant_duration_since, instant_now};
use std::time::Instant;
use vstd::prelude::*;

verus! {

/// The least time between two preview requests, in milliseconds.
pub const PREVIEW_REQUEST_MS: u64 = 30;
/// The wait after the last key before a pending preview is loaded, in milliseconds.
pub const PREVIEW_DEBOUNCE_MS: u64 = 35;
/// The least time between two navigation steps, in milliseconds.
pub const NAV_THROTTLE_MS: u64 = 15;
/// The least time between two file information requests, in milliseconds.
pub const FILE_INFO_DEBOUNCE_MS: u64 = 60;

/// Remembers when something last happened, to let it happen again only after a while.
pub struct Throttler {
    last_timing: Option<Instant>,
}

impl Throttler {
    /// Whether it has happened at all.
    pub closed spec fn touched(&self) -> bool {
        self.last_timing is Some
    }

    /// Nothing has happened yet.
    pub fn new() -> (r: Self)
        ensures
            !r.touched(),
    {
        Throttler { last_timing: None }
    }

    /// Whether it may happen again, `elapsed_enough` telling whether the wait since the last
    /// time has passed: always the first time.
    pub fn can_trigger_when(&self, elapsed_enough: bool) -> (r: bool)
        ensures
            r == (!self.touched() || elapsed_enough),
    {
        match self.last_timing {
            Some(_) => elapsed_enough,
            None => true,
        }
    }

    /// Whether at least `ms` milliseconds have passed since the last time, by the clock.
    pub fn can_trigger(&self, ms: u64) -> (r: bool)
        ensures
            !self.touched() ==> r,
    {
        let elapsed_enough = match &self.last_timing {
            Some(prev) => duration_at_most(&duration_from_millis(ms), &instant_duration_since(&instant_now(), prev)),
            None => true,
        };
        self.can_trigger_when(elapsed_enough)
    }

    /// Records that it happened now.
    pub fn touch(&mut self)
        ensures
            final(self).touched(),
    {
        self.last_timing = Some(instant_now());
    }
}

} // verus!
