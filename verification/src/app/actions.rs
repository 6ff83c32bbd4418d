//! Action context: the current input mode and prompt, the input line being edited, the
//! clipboard and the find state; and the actions that turn the selection into file operations.

use crate::app::nav::{clip_view, clip_wf, next_request, NavState};
use crate::engine::find::FindResult;
use crate::engine::worker::FileOperation;
use crate::utils::clock::{instant_after, instant_before, instant_checked_add, instant_now, instant_precedes};
use crate::utils::collections::{texts, TextSet};
use crate::utils::{join_spec, path_join, push_char, text_eq};
use std::sync::atomic::{AtomicBool, Ordering};
use std::sync::Arc;
use std::time::{Duration, Instant};
use vstd::prelude::*;

verus! {

/// The index of the least of `s[..k]` in `Path` order (`path_precedes`), taken from left to
/// right: an element replaces the least so far only where it comes strictly before it. As
/// `Path`'s order is total, this is the index of the minimum (the first one among equals).
pub open spec fn least_path_index(s: Seq<Seq<char>>, k: int) -> int
    decreases k,
{
    if k <= 1 {
        0
    } else {
        let i = least_path_index(s, k - 1);
        if crate::utils::path_precedes(s[k - 1], s[i]) {
            k - 1
        } else {
            i
        }
    }
}

proof fn lemma_least_path_index_bounds(s: Seq<Seq<char>>, k: int)
    requires
        k >= 1,
    ensures
        0 <= least_path_index(s, k) < k,
    decreases k,
{
    if k > 1 {
        lemma_least_path_index_bounds(s, k - 1);
    }
}

/// The kinds of input line: what the prompt is for.
#[derive(Clone, Copy, PartialEq, Eq, Structural, Debug)]
pub enum InputMode {
    Rename,
    NewFile,
    NewFolder,
    Filter,
    ConfirmDelete,
    ConfirmOverwrite,
    Find,
    MoveFile,
}

/// What the user is doing: browsing, or typing into a prompt.
pub enum ActionMode {
    Normal,
    Input { mode: InputMode, prompt: String },
}

/// Tracks the state of an ongoing fuzzy find, with the selected result.
pub struct FindState {
    cache: Vec<FindResult>,
    request_id: u64,
    debounce: Option<Instant>,
    last_query: String,
    selected: usize,
    cancel: Option<Arc<AtomicBool>>,
}

impl FindState {
    /// The cached results.
    pub closed spec fn results_view(&self) -> Seq<FindResult> {
        self.cache@
    }

    /// The request counter.
    pub closed spec fn request_view(&self) -> u64 {
        self.request_id
    }

    /// The index of the selected result.
    pub closed spec fn selected_view(&self) -> usize {
        self.selected
    }

    /// The debounce deadline, if one is set.
    pub closed spec fn deadline_view(&self) -> Option<Instant> {
        self.debounce
    }

    /// Whether a debounce deadline is set.
    pub open spec fn debouncing(&self) -> bool {
        self.deadline_view() is Some
    }

    /// The last query that was handed out.
    pub closed spec fn last_query_view(&self) -> Seq<char> {
        self.last_query@
    }

    /// Whether a cancellation token is held.
    pub closed spec fn has_cancel(&self) -> bool {
        self.cancel is Some
    }

    /// An empty find state.
    pub fn new() -> (r: Self)
        ensures
            r.results_view().len() == 0,
            r.request_view() == 0,
            r.selected_view() == 0,
            !r.debouncing(),
            r.last_query_view().len() == 0,
            !r.has_cancel(),
    {
        FindState {
            cache: Vec::new(),
            request_id: 0,
            debounce: None,
            last_query: String::new(),
            selected: 0,
            cancel: None,
        }
    }

    /// The cached results.
    pub fn results(&self) -> (r: &[FindResult])
        ensures
            r@ == self.results_view(),
    {
        self.cache.as_slice()
    }

    /// The request counter.
    pub fn request_id(&self) -> (r: u64)
        ensures
            r == self.request_view(),
    {
        self.request_id
    }

    /// The index of the selected result.
    pub fn selected(&self) -> (r: usize)
        ensures
            r == self.selected_view(),
    {
        self.selected
    }

    /// Cancels the running search, if any: raises its token and lets go of it.
    pub fn cancel_current(&mut self)
        ensures
            !final(self).has_cancel(),
            final(self).results_view() == old(self).results_view(),
            final(self).request_view() == old(self).request_view(),
            final(self).selected_view() == old(self).selected_view(),
            final(self).deadline_view() == old(self).deadline_view(),
            final(self).last_query_view() == old(self).last_query_view(),
    {
        if let Some(token) = self.cancel.take() {
            token.store(true, Ordering::Relaxed);
        }
    }

    /// Replaces the cached results and selects the first.
    pub fn set_results(&mut self, results: Vec<FindResult>)
        ensures
            final(self).results_view() == results@,
            final(self).selected_view() == 0,
            final(self).request_view() == old(self).request_view(),
            final(self).deadline_view() == old(self).deadline_view(),
            final(self).last_query_view() == old(self).last_query_view(),
            final(self).has_cancel() == old(self).has_cancel(),
    {
        self.cache = results;
        self.selected = 0;
    }

    /// Holds the cancellation token of the search just started.
    pub fn set_cancel(&mut self, token: Arc<AtomicBool>)
        ensures
            final(self).has_cancel(),
            final(self).results_view() == old(self).results_view(),
            final(self).request_view() == old(self).request_view(),
            final(self).selected_view() == old(self).selected_view(),
            final(self).deadline_view() == old(self).deadline_view(),
            final(self).last_query_view() == old(self).last_query_view(),
    {
        self.cancel = Some(token);
    }

    /// Empties the cache (the selection index is kept).
    pub fn clear_results(&mut self)
        ensures
            final(self).results_view().len() == 0,
            final(self).request_view() == old(self).request_view(),
            final(self).selected_view() == old(self).selected_view(),
            final(self).deadline_view() == old(self).deadline_view(),
            final(self).last_query_view() == old(self).last_query_view(),
            final(self).has_cancel() == old(self).has_cancel(),
    {
        self.cache.clear();
    }

    /// Bumps the request counter (wrapping) and returns it.
    pub fn prepare_new_request(&mut self) -> (r: u64)
        ensures
            r == next_request(old(self).request_view()),
            final(self).request_view() == r,
            final(self).results_view() == old(self).results_view(),
            final(self).selected_view() == old(self).selected_view(),
            final(self).deadline_view() == old(self).deadline_view(),
            final(self).last_query_view() == old(self).last_query_view(),
            final(self).has_cancel() == old(self).has_cancel(),
    {
        self.request_id = if self.request_id == u64::MAX {
            0
        } else {
            self.request_id + 1
        };
        self.request_id
    }

    /// Sets the debounce deadline `delay` from now (from now itself should the clock be
    /// unable to hold the sum).
    pub fn set_debounce(&mut self, delay: Duration)
        ensures
            final(self).deadline_view() matches Some(d) && exists|now: Instant| d == match #[trigger] instant_after(now, delay) {
                Some(t) => t,
                None => now,
            },
            final(self).results_view() == old(self).results_view(),
            final(self).request_view() == old(self).request_view(),
            final(self).selected_view() == old(self).selected_view(),
            final(self).last_query_view() == old(self).last_query_view(),
            final(self).has_cancel() == old(self).has_cancel(),
    {
        let now = instant_now();
        let until = match instant_checked_add(&now, delay) {
            Some(t) => t,
            None => now,
        };
        self.debounce = Some(until);
    }

    /// Hands out the query once the deadline is reached (`due`); see the module's find state.
    pub fn take_query_when(&mut self, current_query: &str, due: bool) -> (r: Option<String>)
        ensures
            !old(self).debouncing() || !due ==> r is None && final(self).deadline_view() == old(self).deadline_view()
                && final(self).last_query_view() == old(self).last_query_view(),
            old(self).debouncing() && due ==> final(self).deadline_view() is None && (if current_query@ == old(self).last_query_view() {
                r is None && final(self).last_query_view().len() == 0
            } else {
                r matches Some(q) && q@ == current_query@ && final(self).last_query_view() == current_query@
            }),
            final(self).results_view() == old(self).results_view(),
            final(self).request_view() == old(self).request_view(),
            final(self).selected_view() == old(self).selected_view(),
            final(self).has_cancel() == old(self).has_cancel(),
    {
        if self.debounce.is_none() || !due {
            return None;
        }
        self.debounce = None;
        if text_eq(current_query, self.last_query.as_str()) {
            self.last_query = String::new();
            return None;
        }
        self.last_query = String::from_str(current_query);
        Some(String::from_str(current_query))
    }

    /// Takes the query if the debounce deadline has passed by the clock.
    pub fn take_query(&mut self, current_query: &str) -> (r: Option<String>)
        ensures
            !old(self).debouncing() ==> r is None && final(self).deadline_view() is None
                && final(self).last_query_view() == old(self).last_query_view(),
            old(self).deadline_view() matches Some(d) ==> (r is None && final(self).deadline_view() == old(self).deadline_view()
                && final(self).last_query_view() == old(self).last_query_view()
                && exists|now: Instant| #[trigger] instant_precedes(now, d)) || (final(self).deadline_view() is None
                && (exists|now: Instant| !#[trigger] instant_precedes(now, d))
                && if current_query@ == old(self).last_query_view() {
                r is None && final(self).last_query_view().len() == 0
            } else {
                r matches Some(q) && q@ == current_query@ && final(self).last_query_view() == current_query@
            }),
            final(self).results_view() == old(self).results_view(),
            final(self).request_view() == old(self).request_view(),
            final(self).selected_view() == old(self).selected_view(),
            final(self).has_cancel() == old(self).has_cancel(),
    {
        let due = match &self.debounce {
            Some(until) => {
                let now = instant_now();
                !instant_before(&now, until)
            },
            None => false,
        };
        self.take_query_when(current_query, due)
    }

    /// Cancels the running search and clears the cache, the deadline and the last query.
    pub fn reset(&mut self)
        ensures
            !final(self).has_cancel(),
            final(self).results_view().len() == 0,
            !final(self).debouncing(),
            final(self).last_query_view().len() == 0,
            final(self).request_view() == old(self).request_view(),
            final(self).selected_view() == old(self).selected_view(),
    {
        self.cancel_current();
        self.cache.clear();
        self.debounce = None;
        self.last_query = String::new();
    }

    /// Selects the next result, if there is one.
    pub fn select_next(&mut self)
        ensures
            final(self).selected_view() == (if old(self).selected_view() + 1 < old(self).results_view().len() {
                old(self).selected_view() + 1
            } else {
                old(self).selected_view() as int
            }),
            final(self).results_view() == old(self).results_view(),
            final(self).request_view() == old(self).request_view(),
            final(self).deadline_view() == old(self).deadline_view(),
            final(self).last_query_view() == old(self).last_query_view(),
            final(self).has_cancel() == old(self).has_cancel(),
    {
        if self.selected < self.cache.len() && self.selected + 1 < self.cache.len() {
            self.selected += 1;
        }
    }

    /// Selects the previous result, if there is one.
    pub fn select_prev(&mut self)
        ensures
            final(self).selected_view() == (if old(self).selected_view() > 0 {
                old(self).selected_view() - 1
            } else {
                0
            }),
            final(self).results_view() == old(self).results_view(),
            final(self).request_view() == old(self).request_view(),
            final(self).deadline_view() == old(self).deadline_view(),
            final(self).last_query_view() == old(self).last_query_view(),
            final(self).has_cancel() == old(self).has_cancel(),
    {
        if self.selected > 0 {
            self.selected -= 1;
        }
    }

    /// Selects the first result.
    pub fn reset_selected(&mut self)
        ensures
            final(self).selected_view() == 0,
            final(self).results_view() == old(self).results_view(),
            final(self).request_view() == old(self).request_view(),
            final(self).deadline_view() == old(self).deadline_view(),
            final(self).last_query_view() == old(self).last_query_view(),
            final(self).has_cancel() == old(self).has_cancel(),
    {
        self.selected = 0;
    }
}

impl Default for FindState {
    fn default() -> (r: Self)
        ensures
            r.results_view().len() == 0,
            r.request_view() == 0,
            r.selected_view() == 0,
            !r.debouncing(),
            r.last_query_view().len() == 0,
            !r.has_cancel(),
    {
        FindState::new()
    }
}

} // verus!

verus! {

/// `s` with the characters `[at, at + removed)` replaced by `inserted`.
pub open spec fn spliced(s: Seq<char>, at: int, removed: int, inserted: Seq<char>) -> Seq<char> {
    s.subrange(0, at) + inserted + s.subrange(at + removed, s.len() as int)
}

fn splice_text(s: &str, at: usize, removed: usize, inserted: Option<char>) -> (r: String)
    requires
        at + removed <= s@.len(),
    ensures
        r@ == spliced(s@, at as int, removed as int, match inserted {
            Some(c) => seq![c],
            None => Seq::empty(),
        }),
{
    let mut out = String::from_str(s.substring_char(0, at));
    match inserted {
        Some(c) => push_char(&mut out, c),
        None => {},
    }
    let n = s.unicode_len();
    out.append(s.substring_char(at + removed, n));
    proof {
        let ins: Seq<char> = match inserted {
            Some(c) => seq![c],
            None => Seq::empty(),
        };
        assert(out@ =~= spliced(s@, at as int, removed as int, ins));
    }
    out
}

/// Tracks the current action mode, the input line and its cursor (counted in characters),
/// the clipboard, and the find state.
pub struct ActionContext {
    mode: ActionMode,
    input_buffer: String,
    input_cursor_pos: usize,
    clipboard: Option<TextSet>,
    is_cut: bool,
    find: FindState,
}

impl ActionContext {
    /// Whether the context is in a prompt.
    pub closed spec fn in_input(&self) -> bool {
        self.mode is Input
    }

    /// Being in a prompt is having a prompt kind.
    pub proof fn lemma_in_input_mode(&self)
        ensures
            self.in_input() == (self.mode_view() is Some),
    {
    }

    /// The kind of prompt the context is in, if any.
    pub closed spec fn mode_view(&self) -> Option<InputMode> {
        match self.mode {
            ActionMode::Input { mode, .. } => Some(mode),
            ActionMode::Normal => None,
        }
    }

    /// The prompt shown, if the context is in a prompt.
    pub closed spec fn prompt_view(&self) -> Option<Seq<char>> {
        match &self.mode {
            ActionMode::Input { prompt, .. } => Some(prompt@),
            ActionMode::Normal => None,
        }
    }

    /// The input line.
    pub closed spec fn buffer(&self) -> Seq<char> {
        self.input_buffer@
    }

    /// The cursor position in the input line, in characters.
    pub closed spec fn cursor(&self) -> int {
        self.input_cursor_pos as int
    }

    /// The clipboard's contents, if any.
    pub open spec fn clipboard_view(&self) -> Option<Set<Seq<char>>> {
        clip_view(self.clipboard_raw())
    }

    /// The clipboard itself.
    pub closed spec fn clipboard_raw(&self) -> Option<TextSet> {
        self.clipboard
    }

    /// Whether the clipboard holds a cut rather than a copy.
    pub closed spec fn cut_view(&self) -> bool {
        self.is_cut
    }

    /// The find state.
    pub closed spec fn find_view(&self) -> FindState {
        self.find
    }

    /// The cursor lies inside the input line and the clipboard is sound.
    pub closed spec fn wf(&self) -> bool {
        &&& self.input_cursor_pos <= self.input_buffer@.len()
        &&& clip_wf(self.clipboard)
    }

    /// A context in normal mode with an empty input line and clipboard.
    pub fn new() -> (r: Self)
        ensures
            r.wf(),
            !r.in_input(),
            r.buffer().len() == 0,
            r.cursor() == 0,
            r.clipboard_view() is None,
            !r.cut_view(),
            r.find_view().results_view().len() == 0,
            r.find_view().request_view() == 0,
            r.find_view().selected_view() == 0,
            !r.find_view().debouncing(),
            r.find_view().last_query_view().len() == 0,
            !r.find_view().has_cancel(),
    {
        ActionContext {
            mode: ActionMode::Normal,
            input_buffer: String::new(),
            input_cursor_pos: 0,
            clipboard: None,
            is_cut: false,
            find: FindState::new(),
        }
    }

    /// The current mode.
    pub fn mode(&self) -> (r: &ActionMode)
        ensures
            (*r is Input) == self.in_input(),
            match *r {
                ActionMode::Input { mode, .. } => self.mode_view() == Some(mode),
                ActionMode::Normal => self.mode_view() is None,
            },
    {
        &self.mode
    }

    /// The input line.
    pub fn input_buffer(&self) -> (r: &str)
        ensures
            r@ == self.buffer(),
    {
        self.input_buffer.as_str()
    }

    /// The cursor position in the input line, in characters.
    pub fn input_cursor_pos(&self) -> (r: usize)
        ensures
            r == self.cursor(),
    {
        self.input_cursor_pos
    }

    /// The clipboard.
    pub fn clipboard(&self) -> (r: &Option<TextSet>)
        ensures
            clip_view(*r) == self.clipboard_view(),
            self.wf() ==> clip_wf(*r),
    {
        &self.clipboard
    }

    /// Whether the context is in a prompt.
    pub fn is_input_mode(&self) -> (r: bool)
        ensures
            r == self.in_input(),
    {
        match self.mode {
            ActionMode::Input { .. } => true,
            ActionMode::Normal => false,
        }
    }

    /// The find state.
    pub fn find_state_mut(&mut self) -> (r: &mut FindState)
        ensures
            final(self).mode_view() == old(self).mode_view(),
            *r == old(self).find_view(),
            final(self).find_view() == *final(r),
            final(self).buffer() == old(self).buffer(),
            final(self).cursor() == old(self).cursor(),
            final(self).clipboard_view() == old(self).clipboard_view(),
            final(self).in_input() == old(self).in_input(),
            final(self).wf() == old(self).wf(),
    {
        &mut self.find
    }

    /// The cached find results.
    pub fn find_results(&self) -> (r: &[FindResult])
        ensures
            r@ == self.find_view().results_view(),
    {
        self.find.results()
    }

    /// The index of the selected find result.
    pub fn find_selected(&self) -> (r: usize)
        ensures
            r == self.find_view().selected_view(),
    {
        self.find.selected()
    }

    /// The find request counter.
    pub fn find_request_id(&self) -> (r: u64)
        ensures
            r == self.find_view().request_view(),
    {
        self.find.request_id()
    }

    /// Takes the find query (the input line) once the debounce deadline has passed.
    pub fn take_query(&mut self) -> (r: Option<String>)
        ensures
            !old(self).find_view().debouncing() ==> r is None && final(self).find_view().deadline_view() is None
                && final(self).find_view().last_query_view() == old(self).find_view().last_query_view(),
            old(self).find_view().deadline_view() matches Some(d) ==> (r is None
                && final(self).find_view().deadline_view() == old(self).find_view().deadline_view()
                && final(self).find_view().last_query_view() == old(self).find_view().last_query_view()
                && exists|now: Instant| #[trigger] instant_precedes(now, d)) || (
                final(self).find_view().deadline_view() is None && (exists|now: Instant| !#[trigger] instant_precedes(now, d)) && if old(self).buffer() == old(self).find_view().last_query_view() {
                    r is None && final(self).find_view().last_query_view().len() == 0
                } else {
                    r matches Some(q) && q@ == old(self).buffer() && final(self).find_view().last_query_view() == old(self).buffer()
                }),
            final(self).find_view().results_view() == old(self).find_view().results_view(),
            final(self).find_view().request_view() == old(self).find_view().request_view(),
            final(self).find_view().selected_view() == old(self).find_view().selected_view(),
            final(self).find_view().has_cancel() == old(self).find_view().has_cancel(),
            final(self).mode_view() == old(self).mode_view(),
            final(self).cut_view() == old(self).cut_view(),
            final(self).buffer() == old(self).buffer(),
            final(self).cursor() == old(self).cursor(),
            final(self).clipboard_view() == old(self).clipboard_view(),
            final(self).in_input() == old(self).in_input(),
            final(self).wf() == old(self).wf(),
    {
        let q = self.find.take_query(self.input_buffer.as_str());
        q
    }

    /// Replaces the input line and puts the cursor at its end.
    pub fn set_input_buffer(&mut self, new_buf: String)
        requires
            old(self).wf(),
        ensures
            final(self).mode_view() == old(self).mode_view(),
            final(self).wf(),
            final(self).buffer() == new_buf@,
            final(self).cursor() == new_buf@.len(),
            final(self).clipboard_view() == old(self).clipboard_view(),
            final(self).in_input() == old(self).in_input(),
    {
        self.input_cursor_pos = new_buf.unicode_len();
        self.input_buffer = new_buf;
    }

    /// Enters `mode` with `initial_value` in the input line and the cursor at its end.
    pub fn enter_mode(&mut self, mode: ActionMode, initial_value: String)
        requires
            old(self).wf(),
        ensures
            final(self).wf(),
            final(self).in_input() == (mode is Input),
            final(self).mode_view() == (match mode {
                ActionMode::Input { mode: m, .. } => Some(m),
                ActionMode::Normal => None,
            }),
            final(self).prompt_view() == (match mode {
                ActionMode::Input { prompt: p, .. } => Some(p@),
                ActionMode::Normal => None,
            }),
            final(self).buffer() == initial_value@,
            final(self).cursor() == initial_value@.len(),
            final(self).clipboard_view() == old(self).clipboard_view(),
            final(self).clipboard_raw() == old(self).clipboard_raw(),
            final(self).cut_view() == old(self).cut_view(),
            final(self).find_view() == old(self).find_view(),
    {
        self.mode = mode;
        self.input_cursor_pos = initial_value.unicode_len();
        self.input_buffer = initial_value;
    }

    /// Back to normal mode: the input line is cleared and the find state reset.
    pub fn exit_mode(&mut self)
        requires
            old(self).wf(),
        ensures
            final(self).wf(),
            !final(self).in_input(),
            final(self).mode_view() is None,
            final(self).buffer().len() == 0,
            final(self).clipboard_view() == old(self).clipboard_view(),
            final(self).find_view().results_view().len() == 0,
            !final(self).find_view().has_cancel(),
            !final(self).find_view().debouncing(),
    {
        self.mode = ActionMode::Normal;
        self.input_buffer = String::new();
        self.input_cursor_pos = 0;
        self.find.reset();
    }

    /// Moves the cursor one character left, if it can.
    pub fn action_move_cursor_left(&mut self)
        requires
            old(self).wf(),
        ensures
            final(self).clipboard_view() == old(self).clipboard_view(),
            final(self).find_view() == old(self).find_view(),
            final(self).mode_view() == old(self).mode_view(),
            final(self).wf(),
            final(self).cursor() == (if old(self).cursor() > 0 { old(self).cursor() - 1 } else { 0 }),
            final(self).buffer() == old(self).buffer(),
    {
        if self.input_cursor_pos > 0 {
            self.input_cursor_pos -= 1;
        }
    }

    /// Moves the cursor one character right, if it can.
    pub fn action_move_cursor_right(&mut self)
        requires
            old(self).wf(),
        ensures
            final(self).clipboard_view() == old(self).clipboard_view(),
            final(self).find_view() == old(self).find_view(),
            final(self).mode_view() == old(self).mode_view(),
            final(self).wf(),
            final(self).cursor() == (if old(self).cursor() < old(self).buffer().len() {
                old(self).cursor() + 1
            } else {
                old(self).cursor()
            }),
            final(self).buffer() == old(self).buffer(),
    {
        if self.input_cursor_pos < self.input_buffer.unicode_len() {
            self.input_cursor_pos += 1;
        }
    }

    /// Inserts `ch` at the cursor and moves the cursor past it.
    pub fn action_insert_at_cursor(&mut self, ch: char)
        requires
            old(self).wf(),
            old(self).buffer().len() < usize::MAX,
        ensures
            final(self).clipboard_view() == old(self).clipboard_view(),
            final(self).find_view() == old(self).find_view(),
            final(self).mode_view() == old(self).mode_view(),
            final(self).wf(),
            final(self).buffer() == spliced(old(self).buffer(), old(self).cursor(), 0, seq![ch]),
            final(self).cursor() == old(self).cursor() + 1,
    {
        let updated = splice_text(self.input_buffer.as_str(), self.input_cursor_pos, 0, Some(ch));
        self.input_buffer = updated;
        self.input_cursor_pos += 1;
    }

    /// Deletes the character before the cursor and moves the cursor back onto its place.
    pub fn action_backspace_at_cursor(&mut self)
        requires
            old(self).wf(),
        ensures
            final(self).clipboard_view() == old(self).clipboard_view(),
            final(self).find_view() == old(self).find_view(),
            final(self).mode_view() == old(self).mode_view(),
            final(self).wf(),
            old(self).cursor() > 0 ==> final(self).buffer() == spliced(old(self).buffer(), old(self).cursor() - 1, 1, Seq::empty())
                && final(self).cursor() == old(self).cursor() - 1,
            old(self).cursor() <= 0 ==> final(self).buffer() == old(self).buffer() && final(self).cursor() == 0,
    {
        if self.input_cursor_pos > 0 {
            let at = self.input_cursor_pos - 1;
            let updated = splice_text(self.input_buffer.as_str(), at, 1, None);
            self.input_buffer = updated;
            self.input_cursor_pos = at;
        }
    }

    /// Deletes the character at the cursor, if there is one.
    pub fn action_delete_at_cursor(&mut self)
        requires
            old(self).wf(),
        ensures
            final(self).clipboard_view() == old(self).clipboard_view(),
            final(self).find_view() == old(self).find_view(),
            final(self).mode_view() == old(self).mode_view(),
            final(self).wf(),
            old(self).cursor() < old(self).buffer().len() ==> final(self).buffer() == spliced(
                old(self).buffer(),
                old(self).cursor(),
                1,
                Seq::empty(),
            ),
            old(self).cursor() >= old(self).buffer().len() ==> final(self).buffer() == old(self).buffer(),
            final(self).cursor() == old(self).cursor(),
    {
        if self.input_cursor_pos < self.input_buffer.unicode_len() {
            let updated = splice_text(self.input_buffer.as_str(), self.input_cursor_pos, 1, None);
            self.input_buffer = updated;
        }
    }

    /// Moves the cursor to the start of the input line.
    pub fn action_cursor_home(&mut self)
        requires
            old(self).wf(),
        ensures
            final(self).clipboard_view() == old(self).clipboard_view(),
            final(self).find_view() == old(self).find_view(),
            final(self).mode_view() == old(self).mode_view(),
            final(self).wf(),
            final(self).cursor() == 0,
            final(self).buffer() == old(self).buffer(),
    {
        self.input_cursor_pos = 0;
    }

    /// Moves the cursor to the end of the input line.
    pub fn action_cursor_end(&mut self)
        requires
            old(self).wf(),
        ensures
            final(self).clipboard_view() == old(self).clipboard_view(),
            final(self).find_view() == old(self).find_view(),
            final(self).mode_view() == old(self).mode_view(),
            final(self).wf(),
            final(self).cursor() == old(self).buffer().len(),
            final(self).buffer() == old(self).buffer(),
    {
        self.input_cursor_pos = self.input_buffer.unicode_len();
    }
}

} // verus!

verus! {

/// The operation and the request counter that an action hands to the file worker.
pub type FileTask = (FileOperation, u64);

/// The source paths, destination and flags of a copy operation.
pub open spec fn copy_view(op: FileOperation) -> Option<(Seq<Seq<char>>, Seq<char>, bool, Option<Seq<char>>)> {
    match op {
        FileOperation::Copy { src, dest, cut, focus } => Some((texts(src@), dest@, cut, match focus {
            Some(f) => Some(f@),
            None => None,
        })),
        _ => None,
    }
}

impl ActionContext {
    /// Replaces the cached find results (and selects the first).
    pub fn set_find_results(&mut self, results: Vec<FindResult>)
        ensures
            final(self).find_view().results_view() == results@,
            final(self).find_view().selected_view() == 0,
            final(self).find_view().request_view() == old(self).find_view().request_view(),
            final(self).find_view().deadline_view() == old(self).find_view().deadline_view(),
            final(self).find_view().last_query_view() == old(self).find_view().last_query_view(),
            final(self).find_view().has_cancel() == old(self).find_view().has_cancel(),
            final(self).mode_view() == old(self).mode_view(),
            final(self).prompt_view() == old(self).prompt_view(),
            final(self).cut_view() == old(self).cut_view(),
            final(self).buffer() == old(self).buffer(),
            final(self).cursor() == old(self).cursor(),
            final(self).clipboard_view() == old(self).clipboard_view(),
            final(self).wf() == old(self).wf(),
    {
        self.find.set_results(results)
    }

    /// Empties the cached find results.
    pub fn clear_find_results(&mut self)
        ensures
            final(self).find_view().results_view().len() == 0,
            final(self).buffer() == old(self).buffer(),
            final(self).cursor() == old(self).cursor(),
            final(self).clipboard_view() == old(self).clipboard_view(),
            final(self).wf() == old(self).wf(),
    {
        self.find.clear_results()
    }

    /// Starts a new find request and returns its number.
    pub fn prepare_new_find_request(&mut self) -> (r: u64)
        ensures
            r == next_request(old(self).find_view().request_view()),
            final(self).find_view().request_view() == r,
            final(self).buffer() == old(self).buffer(),
            final(self).cursor() == old(self).cursor(),
            final(self).clipboard_view() == old(self).clipboard_view(),
            final(self).wf() == old(self).wf(),
    {
        self.find.prepare_new_request()
    }

    /// Sets the find debounce deadline `delay` from now.
    pub fn find_debounce(&mut self, delay: Duration)
        ensures
            final(self).mode_view() == old(self).mode_view(),
            final(self).find_view().debouncing(),
            final(self).buffer() == old(self).buffer(),
            final(self).cursor() == old(self).cursor(),
            final(self).clipboard_view() == old(self).clipboard_view(),
            final(self).wf() == old(self).wf(),
    {
        self.find.set_debounce(delay);
    }

    /// Cancels the running search.
    pub fn cancel_find(&mut self)
        ensures
            !final(self).find_view().has_cancel(),
            final(self).buffer() == old(self).buffer(),
            final(self).cursor() == old(self).cursor(),
            final(self).clipboard_view() == old(self).clipboard_view(),
            final(self).wf() == old(self).wf(),
    {
        self.find.cancel_current();
    }

    /// Holds the cancellation token of the search just started.
    pub fn set_cancel_find_token(&mut self, token: Arc<AtomicBool>)
        ensures
            final(self).find_view().has_cancel(),
            final(self).buffer() == old(self).buffer(),
            final(self).cursor() == old(self).cursor(),
            final(self).clipboard_view() == old(self).clipboard_view(),
            final(self).wf() == old(self).wf(),
    {
        self.find.set_cancel(token);
    }

    /// The clipboard, to change.
    pub fn clipboard_mut(&mut self) -> (r: &mut Option<TextSet>)
        ensures
            *r == old(self).clipboard_raw(),
            final(self).clipboard_raw() == *final(r),
            final(self).buffer() == old(self).buffer(),
            final(self).cursor() == old(self).cursor(),
            final(self).mode_view() == old(self).mode_view(),
            final(self).prompt_view() == old(self).prompt_view(),
            final(self).cut_view() == old(self).cut_view(),
            final(self).find_view() == old(self).find_view(),
            old(self).wf() && clip_wf(*final(r)) ==> final(self).wf(),
            old(self).wf() ==> clip_wf(*r),
    {
        &mut self.clipboard
    }

    /// Empties the clipboard, which then holds no cut.
    pub fn clear_clipboard(&mut self)
        requires
            old(self).wf(),
        ensures
            final(self).wf(),
            final(self).clipboard_raw() is None,
            final(self).clipboard_view() is None,
            !final(self).cut_view(),
            final(self).buffer() == old(self).buffer(),
            final(self).cursor() == old(self).cursor(),
            final(self).mode_view() == old(self).mode_view(),
            final(self).prompt_view() == old(self).prompt_view(),
            final(self).find_view() == old(self).find_view(),
    {
        self.clipboard = None;
        self.is_cut = false;
    }

    /// Deletes the marked paths, or the selected entry when nothing is marked: returns the
    /// delete operation and a new navigation request, and clears the marks. Nothing happens
    /// when there is no target.
    pub fn action_delete(&mut self, nav: &mut NavState, move_to_trash: bool) -> (r: Option<FileTask>)
        requires
            old(nav).wf(),
        ensures
            final(nav).wf(),
            match r {
                None => old(nav).markers_view().len() == 0 && old(nav).selected_path() is None && *final(nav) == *old(nav),
                Some((op, id)) => {
                    &&& op matches FileOperation::Delete(paths, trash) && trash == move_to_trash
                        && texts(paths@).to_set() == (if old(nav).markers_view().len() == 0 {
                            Set::<Seq<char>>::empty().insert(old(nav).selected_path().unwrap())
                        } else {
                            old(nav).markers_view()
                        })
                    &&& id == next_request(old(nav).request_view())
                    &&& final(nav).request_view() == id
                    &&& final(nav).markers_view() == Set::<Seq<char>>::empty()
                    &&& final(nav).selected_view() == old(nav).selected_view()
                    &&& final(nav).entries_view() == old(nav).entries_view()
                    &&& final(nav).dir() == old(nav).dir()
                },
            },
    {
        let targets = nav.get_action_targets();
        if targets.len() == 0 {
            proof {
                assert(texts(targets@).to_set() =~= Set::<Seq<char>>::empty());
                if nav.selected_path() is Some {
                    assert(texts(targets@).to_set().contains(nav.selected_path().unwrap()));
                }
            }
            return None;
        }
        let request_id = nav.prepare_new_request();
        nav.clear_markers();
        proof {
            if old(nav).markers_view().len() == 0 && old(nav).selected_path() is None {
                assert(texts(targets@).len() > 0);
                assert(texts(targets@).to_set().contains(texts(targets@)[0]));
            }
        }
        Some((FileOperation::Delete(targets, move_to_trash), request_id))
    }

    /// Puts the marked paths (or the selected entry's path) on the clipboard, as a copy or a cut.
    /// Nothing changes when there is nothing to put there.
    pub fn action_copy(&mut self, nav: &NavState, is_cut: bool)
        requires
            old(self).wf(),
            nav.wf(),
        ensures
            final(self).wf(),
            final(self).buffer() == old(self).buffer(),
            final(self).cursor() == old(self).cursor(),
            ({
                let chosen = if nav.markers_view().len() == 0 {
                    match nav.selected_path() {
                        Some(p) => Set::<Seq<char>>::empty().insert(p),
                        None => Set::<Seq<char>>::empty(),
                    }
                } else {
                    nav.markers_view()
                };
                if chosen.len() == 0 {
                    final(self).clipboard_view() == old(self).clipboard_view() && final(self).cut_view() == old(self).cut_view()
                } else {
                    final(self).clipboard_view() == Some(chosen) && final(self).cut_view() == is_cut
                }
            }),
    {
        let targets = nav.get_action_targets();
        let mut set = TextSet::new();
        let mut k: usize = 0;
        while k < targets.len()
            invariant
                k <= targets@.len(),
                set.wf(),
                set@ == texts(targets@.subrange(0, k as int)).to_set(),
            decreases targets@.len() - k,
        {
            let ghost before = set@;
            set.insert(targets[k].clone());
            assert(texts(targets@.subrange(0, k + 1)) =~= texts(targets@.subrange(0, k as int)).push(targets@[k as int]@));
            assert(set@ =~= texts(targets@.subrange(0, k + 1)).to_set()) by {
                assert forall|x: Seq<char>| set@.contains(x) <==> texts(targets@.subrange(0, k + 1)).to_set().contains(x) by {
                    let t1 = texts(targets@.subrange(0, k as int));
                    let t2 = texts(targets@.subrange(0, k + 1));
                    if t1.contains(x) {
                        let m = choose|m: int| 0 <= m < t1.len() && t1[m] == x;
                        assert(t2[m] == x);
                    }
                    if t2.contains(x) {
                        let m = choose|m: int| 0 <= m < t2.len() && t2[m] == x;
                        if m < k {
                            assert(t1[m] == x);
                        }
                    }
                    if x == targets@[k as int]@ {
                        assert(t2[k as int] == x);
                    }
                }
            }
            k += 1;
        }
        assert(targets@.subrange(0, targets@.len() as int) =~= targets@);
        if !set.is_empty() {
            self.clipboard = Some(set);
            self.is_cut = is_cut;
        }
    }

    /// Applies the input line as the navigation filter.
    pub fn action_filter(&mut self, nav: &mut NavState)
        requires
            old(nav).wf(),
        ensures
            final(nav).wf(),
            final(nav).filter_view() == old(self).buffer(),
            final(self).buffer() == old(self).buffer(),
    {
        let f = self.input_buffer.clone();
        nav.set_filter(f);
    }

    /// Creates a file (or directory) named by the input line in the current directory, then
    /// leaves the prompt. Nothing happens while the input line is empty.
    pub fn action_create(&mut self, nav: &mut NavState, is_dir: bool) -> (r: Option<FileTask>)
        requires
            old(self).wf(),
            old(nav).wf(),
        ensures
            final(self).wf(),
            final(nav).wf(),
            old(self).buffer().len() == 0 ==> r is None && *final(nav) == *old(nav) && final(self).buffer() == old(self).buffer(),
            old(self).buffer().len() != 0 ==> {
                &&& r matches Some((FileOperation::Create { path, is_dir: d }, id))
                    && path@ == join_spec(old(nav).dir(), old(self).buffer()) && d == is_dir
                    && id == next_request(old(nav).request_view())
                &&& final(nav).request_view() == next_request(old(nav).request_view())
                &&& final(nav).markers_view() == old(nav).markers_view()
                &&& final(nav).dir() == old(nav).dir()
                &&& !final(self).in_input()
                &&& final(self).buffer().len() == 0
            },
    {
        if self.input_buffer.unicode_len() == 0 {
            return None;
        }
        let path = path_join(nav.current_dir(), self.input_buffer.as_str());
        let request_id = nav.prepare_new_request();
        self.exit_mode();
        Some((FileOperation::Create { path, is_dir }, request_id))
    }

    /// The paths a rename to the input line goes from and to: the selected entry's path, and
    /// that path with its last component replaced by the input line; none while the input line
    /// is empty or nothing is selected.
    pub fn rename_target(&self, nav: &NavState) -> (r: Option<(String, String)>)
        requires
            nav.wf(),
        ensures
            self.buffer().len() == 0 ==> r is None,
            self.buffer().len() != 0 ==> match nav.selected_path() {
                None => r is None,
                Some(p) => r matches Some((o, n)) && o@ == p && n@ == crate::utils::with_file_name_of(p, self.buffer()),
            },
    {
        if self.input_buffer.unicode_len() == 0 {
            return None;
        }
        match nav.selected_entry() {
            Some(entry) => {
                let old_path = path_join(nav.current_dir(), entry.name());
                let new_path = crate::utils::path_with_file_name(old_path.as_str(), self.input_buffer.as_str());
                Some((old_path, new_path))
            },
            None => None,
        }
    }

    /// Renames the selected entry to the input line, then leaves the prompt. Nothing happens
    /// while the input line is empty; without a selected entry, or where the new path is the
    /// old one, only the prompt is left.
    pub fn action_rename(&mut self, nav: &mut NavState) -> (r: Option<FileTask>)
        requires
            old(self).wf(),
            old(nav).wf(),
        ensures
            final(self).wf(),
            final(nav).wf(),
            old(self).buffer().len() == 0 ==> r is None && *final(nav) == *old(nav) && final(self).buffer() == old(self).buffer(),
            old(self).buffer().len() != 0 ==> {
                &&& !final(self).in_input()
                &&& final(self).buffer().len() == 0
                &&& match old(nav).selected_path() {
                    None => r is None && *final(nav) == *old(nav),
                    Some(p) => if crate::utils::same_path(p, crate::utils::with_file_name_of(p, old(self).buffer())) {
                        r is None && *final(nav) == *old(nav)
                    } else {
                        r matches Some((FileOperation::Rename { old: o, new: n }, id))
                        && o@ == p && n@ == crate::utils::with_file_name_of(p, old(self).buffer())
                        && id == next_request(old(nav).request_view())
                        && final(nav).request_view() == id
                        && final(nav).markers_view() == old(nav).markers_view()
                        && final(nav).dir() == old(nav).dir()
                    },
                }
            },
    {
        if self.input_buffer.unicode_len() == 0 {
            return None;
        }
        let mut task: Option<FileTask> = None;
        let old_path = match nav.selected_entry() {
            Some(entry) => Some(path_join(nav.current_dir(), entry.name())),
            None => None,
        };
        match old_path {
            Some(old_path) => {
                let new_path = crate::utils::path_with_file_name(old_path.as_str(), self.input_buffer.as_str());
                if !crate::utils::paths_equal(old_path.as_str(), new_path.as_str()) {
                    let request_id = nav.prepare_new_request();
                    task = Some((FileOperation::Rename { old: old_path, new: new_path }, request_id));
                }
            },
            None => {},
        }
        self.exit_mode();
        task
    }

    /// Moves the marked paths (or the selected entry) into `destination`, and clears the marks.
    /// Nothing happens when there is no target.
    pub fn actions_move(&mut self, nav: &mut NavState, destination: String) -> (r: Option<FileTask>)
        requires
            old(nav).wf(),
        ensures
            final(nav).wf(),
            match r {
                None => old(nav).markers_view().len() == 0 && old(nav).selected_path() is None && *final(nav) == *old(nav),
                Some((op, id)) => {
                    &&& copy_view(op) matches Some((srcs, dest, cut, focus)) && dest == destination@ && cut && focus is None
                        && srcs.to_set() == (if old(nav).markers_view().len() == 0 {
                            Set::<Seq<char>>::empty().insert(old(nav).selected_path().unwrap())
                        } else {
                            old(nav).markers_view()
                        })
                    &&& id == next_request(old(nav).request_view())
                    &&& final(nav).request_view() == id
                    &&& final(nav).markers_view() == Set::<Seq<char>>::empty()
                    &&& final(nav).dir() == old(nav).dir()
                },
            },
    {
        let targets = nav.get_action_targets();
        if targets.len() == 0 {
            proof {
                assert(texts(targets@).to_set() =~= Set::<Seq<char>>::empty());
                if nav.selected_path() is Some {
                    assert(texts(targets@).to_set().contains(nav.selected_path().unwrap()));
                }
            }
            return None;
        }
        let request_id = nav.prepare_new_request();
        nav.clear_markers();
        proof {
            if old(nav).markers_view().len() == 0 && old(nav).selected_path() is None {
                assert(texts(targets@).to_set().contains(texts(targets@)[0]));
            }
        }
        Some((FileOperation::Copy { src: targets, dest: destination, cut: true, focus: None }, request_id))
    }

    /// Pastes the clipboard into the current directory: returns the copy (or move) operation,
    /// focused on the file name of the least of the clipboard's paths in path order (see
    /// `least_path_index`); a cut empties the clipboard. Marks are cleared. Nothing happens
    /// without a clipboard.
    pub fn action_paste(&mut self, nav: &mut NavState) -> (r: Option<FileTask>)
        requires
            old(self).wf(),
            old(nav).wf(),
        ensures
            final(self).wf(),
            final(nav).wf(),
            match old(self).clipboard_view() {
                None => r is None && *final(nav) == *old(nav) && final(self).clipboard_view() is None,
                Some(c) => {
                    &&& r matches Some((op, id)) && copy_view(op) matches Some((srcs, dest, cut, focus))
                        && srcs.to_set() == c && dest == old(nav).dir() && cut == old(self).cut_view()
                        && id == next_request(old(nav).request_view())
                        && (focus matches Some(f) ==> exists|p: Seq<char>| c.contains(p) && crate::utils::file_name_of(p) == Some(f))
                        && (srcs.len() == 0 ==> focus is None)
                        && (srcs.len() > 0 ==> focus == crate::utils::file_name_of(srcs[least_path_index(srcs, srcs.len() as int)]))
                    &&& final(nav).request_view() == next_request(old(nav).request_view())
                    &&& final(nav).markers_view() == Set::<Seq<char>>::empty()
                    &&& final(self).clipboard_view() == (if old(self).cut_view() { None } else { Some(c) })
                },
            },
    {
        let sources: Vec<String> = match &self.clipboard {
            Some(source) => source.to_vec(),
            None => {
                return None;
            },
        };
        let mut first: Option<usize> = None;
        let mut k: usize = 0;
        while k < sources.len()
            invariant
                k <= sources@.len(),
                first matches Some(i) ==> i < sources@.len(),
                k == 0 <==> first is None,
                first matches Some(i) ==> i as int == least_path_index(texts(sources@), k as int),
            decreases sources@.len() - k,
        {
            proof {
                if k > 0 {
                    lemma_least_path_index_bounds(texts(sources@), k as int);
                }
            }
            first = match first {
                None => Some(k),
                Some(i) => if crate::utils::path_lt(sources[k].as_str(), sources[i].as_str()) {
                    Some(k)
                } else {
                    Some(i)
                },
            };
            k += 1;
        }
        let focus = match first {
            Some(i) => crate::utils::path_file_name(sources[i].as_str()),
            None => None,
        };
        proof {
            assert(texts(sources@).len() == sources@.len());
            match first {
                Some(i) => {
                    assert(texts(sources@)[i as int] == sources@[i as int]@);
                    assert(texts(sources@).to_set().contains(sources@[i as int]@));
                    assert(i as int == least_path_index(texts(sources@), texts(sources@).len() as int));
                },
                None => {
                    assert(sources@.len() == 0);
                },
            }
        }
        let dest = String::from_str(nav.current_dir());
        let request_id = nav.prepare_new_request();
        let cut = self.is_cut;
        if self.is_cut {
            self.clipboard = None;
        }
        nav.clear_markers();
        Some((FileOperation::Copy { src: sources, dest, cut, focus }, request_id))
    }
}

impl Default for ActionContext {
    fn default() -> (r: Self)
        ensures
            r.wf(),
            !r.in_input(),
            r.buffer().len() == 0,
            r.cursor() == 0,
            r.clipboard_view() is None,
            !r.cut_view(),
    {
        ActionContext::new()
    }
}

} // verus!
