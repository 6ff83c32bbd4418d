//! Showing a one-line input field narrower than its text: which part of the text is visible
//! and where the cursor stands in it.

use crate::engine::width::{char_width, columns};
use crate::ui::panes::{str_width, str_width_of};
use vstd::prelude::*;

verus! {

/// Scanning `cs` backwards from the character before `k` with `w` columns taken: where the
/// visible part starts, just after the first character that would pass `visible` columns;
/// the end of the text when none does.
pub open spec fn view_start(cs: Seq<char>, k: int, w: nat, visible: nat) -> int
    decreases k,
{
    if k <= 0 || k > cs.len() {
        cs.len() as int
    } else if w + columns(cs[k - 1]) > visible {
        k
    } else {
        view_start(cs, k - 1, w + columns(cs[k - 1]), visible)
    }
}

/// The visible part of an input field: the whole text when it fits in `visible` columns,
/// else its end from `view_start`.
pub open spec fn visible_text(s: Seq<char>, visible: nat) -> Seq<char> {
    if str_width_of(s) <= visible {
        s
    } else {
        s.subrange(view_start(s, s.len() as int, 0, visible), s.len() as int)
    }
}

/// The column of the cursor (a character position, cut to the text's length) within the
/// visible part: the width of the visible text before it, none when it lies before the
/// visible part.
pub open spec fn cursor_column(s: Seq<char>, cursor: nat, visible: nat) -> usize {
    let c = if cursor < s.len() { cursor as int } else { s.len() as int };
    if str_width_of(s) <= visible {
        str_width_of(s.subrange(0, c))
    } else {
        let start = view_start(s, s.len() as int, 0, visible);
        if c < start {
            0
        } else {
            str_width_of(s.subrange(start, c))
        }
    }
}

proof fn lemma_view_start_bounds(cs: Seq<char>, k: int, w: nat, visible: nat)
    requires
        0 <= k <= cs.len(),
    ensures
        0 <= view_start(cs, k, w, visible) <= cs.len(),
    decreases k,
{
    if k > 0 && w + columns(cs[k - 1]) <= visible {
        lemma_view_start_bounds(cs, k - 1, w + columns(cs[k - 1]), visible);
    }
}

/// The visible part of an input field `visible_width` columns wide and the cursor's column in
/// it (see `visible_text` and `cursor_column`); the cursor counts characters.
pub fn input_field_view(input_text: &str, cursor_pos: usize, visible_width: usize) -> (r: (&str, usize))
    ensures
        r.0@ == visible_text(input_text@, visible_width as nat),
        r.1 == cursor_column(input_text@, cursor_pos as nat, visible_width as nat),
{
    let n = input_text.unicode_len();
    let cursor = if cursor_pos < n { cursor_pos } else { n };
    if str_width(input_text) <= visible_width {
        let before = input_text.substring_char(0, cursor);
        return (input_text, str_width(before));
    }
    let mut current_w: usize = 0;
    let mut k: usize = n;
    let mut start: usize = n;
    while k > 0
        invariant_except_break
            start == n,
        invariant
            n == input_text@.len(),
            k <= n,
            current_w <= visible_width,
            view_start(input_text@, n as int, 0, visible_width as nat)
                == view_start(input_text@, k as int, current_w as nat, visible_width as nat),
        ensures
            view_start(input_text@, n as int, 0, visible_width as nat) == start,
        decreases k,
    {
        let ch = input_text.get_char(k - 1);
        let cw: usize = match char_width(ch) {
            Some(x) => x,
            None => 0,
        };
        assert(cw == columns(ch));
        if cw > visible_width - current_w {
            start = k;
            break;
        }
        current_w = current_w + cw;
        k -= 1;
    }
    proof {
        lemma_view_start_bounds(input_text@, n as int, 0, visible_width as nat);
    }
    let offset = if cursor < start {
        0
    } else {
        str_width(input_text.substring_char(start, cursor))
    };
    (input_text.substring_char(start, n), offset)
}

} // verus!
