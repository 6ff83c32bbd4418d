//! Laying out a row of a file pane: the optional right-hand column of sort values, how much
//! room is left for the name, and cutting a name to fit.

use crate::engine::width::{char_width, columns, spaces};
use crate::utils::push_char;
use vstd::prelude::*;

verus! {

/// The widest that the right-hand column of a pane gets, in columns.
pub const MAX_RIGHT_COLUMN_WIDTH: u16 = 24;

/// The least room that the name keeps when the right-hand column is shown.
pub const MIN_LEFT_WIDTH: u16 = 12;

/// The displayed width of a text as `unicode-width` measures a whole string.
pub uninterp spec fn str_width_of(s: Seq<char>) -> usize;

/// The displayed width of a string (`UnicodeWidthStr::width`): a function of the text alone,
/// none for the empty string.
#[verifier::external_body]
pub(crate) fn str_width(s: &str) -> (r: usize)
    ensures
        r == str_width_of(s@),
        s@.len() == 0 ==> r == 0,
{
    unicode_width::UnicodeWidthStr::width(s)
}

/// The value shown in the right-hand column of one row, and that column's width.
#[derive(Clone, Copy)]
pub struct RightCol<'a> {
    pub text: Option<&'a str>,
    pub width: u16,
}

impl<'a> RightCol<'a> {
    /// No right-hand column.
    pub fn none() -> (r: Self)
        ensures
            r.text is None,
            r.width == 0,
    {
        RightCol { text: None, width: 0 }
    }

    /// The columns that the right-hand value takes from the row: its width and the space
    /// before it, or none when there is no value.
    pub fn reserve(self) -> (r: usize)
        ensures
            r == (if self.text is Some { self.width + 1 } else { 0 }),
    {
        if self.text.is_some() {
            self.width as usize + 1
        } else {
            0
        }
    }
}

/// Whether a pane `inner_w` columns wide shows a right-hand column `right_w` wide: only when
/// there is one and the name keeps its least room beside it and the space between.
pub fn pane_show_col(inner_w: u16, right_w: u16) -> (r: bool)
    requires
        right_w + 1 + MIN_LEFT_WIDTH <= u16::MAX,
    ensures
        r == (right_w > 0 && inner_w >= right_w + 1 + MIN_LEFT_WIDTH),
{
    right_w > 0 && inner_w >= right_w + 1 + MIN_LEFT_WIDTH
}

/// How many characters of `cs`, from `k` on, fit before the running width `w` (plus the
/// next character's) reaches `max_w`: the index where the kept part ends.
pub open spec fn kept_until(cs: Seq<char>, k: int, w: nat, max_w: nat) -> int
    decreases cs.len() - k,
{
    if k < 0 || k >= cs.len() {
        k
    } else if w + columns(cs[k]) >= max_w {
        k
    } else {
        kept_until(cs, k + 1, w + columns(cs[k]), max_w)
    }
}

/// A text cut to `max_w` columns: unchanged when it fits; otherwise an ellipsis alone when
/// there is at most one column, else the characters that fit strictly below `max_w`, less
/// the last of them, and an ellipsis.
pub open spec fn truncated(s: Seq<char>, max_w: nat) -> Seq<char> {
    if str_width_of(s) <= max_w {
        s
    } else if max_w <= 1 {
        seq!['…']
    } else {
        let k = kept_until(s, 0, 0, max_w);
        let keep = if k > 0 { k - 1 } else { 0 };
        s.subrange(0, keep).push('…')
    }
}

proof fn lemma_kept_until_bounds(cs: Seq<char>, k: int, w: nat, max_w: nat)
    requires
        0 <= k <= cs.len(),
    ensures
        k <= kept_until(cs, k, w, max_w) <= cs.len(),
    decreases cs.len() - k,
{
    if k < cs.len() && w + columns(cs[k]) < max_w {
        lemma_kept_until_bounds(cs, k + 1, w + columns(cs[k]), max_w);
    }
}

/// Cuts `s` to at most `max_w` columns, marking the cut with an ellipsis (see `truncated`).
pub fn truncate_owned(s: &str, max_w: usize) -> (r: String)
    ensures
        r@ == truncated(s@, max_w as nat),
{
    if str_width(s) <= max_w {
        return s.to_string();
    }
    if max_w <= 1 {
        let mut out = String::new();
        push_char(&mut out, '…');
        assert(out@ =~= seq!['…']);
        return out;
    }
    let n = s.unicode_len();
    let mut out = String::new();
    let mut w: usize = 0;
    let mut k: usize = 0;
    while k < n
        invariant
            n == s@.len(),
            k <= n,
            w < max_w,
            out@ == s@.subrange(0, k as int),
            kept_until(s@, 0, 0, max_w as nat) == kept_until(s@, k as int, w as nat, max_w as nat),
        ensures
            kept_until(s@, 0, 0, max_w as nat) == k,
            out@ == s@.subrange(0, k as int),
        decreases n - k,
    {
        let ch = s.get_char(k);
        let cw: usize = match char_width(ch) {
            Some(x) => x,
            None => 0,
        };
        assert(cw == columns(ch));
        if cw >= max_w - w {
            break;
        }
        push_char(&mut out, ch);
        assert(out@ =~= s@.subrange(0, k as int + 1));
        w = w + cw;
        k += 1;
    }
    proof {
        lemma_kept_until_bounds(s@, 0, 0, max_w as nat);
    }
    let ghost kept = out@;
    if k > 0 {
        let mut trimmed = String::new();
        let mut i: usize = 0;
        while i < k - 1
            invariant
                k <= n,
                n == s@.len(),
                i <= k - 1,
                kept == s@.subrange(0, k as int),
                trimmed@ == s@.subrange(0, i as int),
            decreases k - 1 - i,
        {
            push_char(&mut trimmed, s.get_char(i));
            assert(trimmed@ =~= s@.subrange(0, i as int + 1));
            i += 1;
        }
        out = trimmed;
    }
    push_char(&mut out, '…');
    out
}

/// Columns left for the name of a row `total_w` wide, with `used_w` taken and `reserve`
/// kept for the right-hand column, never below none.
pub fn left_remaining(total_w: usize, used_w: usize, reserve: usize) -> (r: usize)
    ensures
        r == (if total_w >= reserve + used_w { total_w - reserve - used_w } else { 0 }),
{
    total_w.saturating_sub(reserve).saturating_sub(used_w)
}

/// The right-hand field of a row: spaces up to the column area, the space before it, and
/// the value aligned to the right of an area `col_area_w` wide.
pub open spec fn right_field(col: Seq<char>, total_w: nat, used_w: nat, col_area_w: nat) -> Seq<char> {
    let pad = if total_w >= used_w + 1 + col_area_w { total_w - used_w - 1 - col_area_w } else { 0 };
    let col_w = if str_width_of(col) <= col_area_w { str_width_of(col) as nat } else { col_area_w };
    spaces(pad as nat) + seq![' '] + spaces((col_area_w - col_w) as nat) + col
}

fn push_spaces(out: &mut String, count: usize)
    ensures
        final(out)@ == old(out)@ + spaces(count as nat),
{
    let ghost start = out@;
    let mut i: usize = 0;
    while i < count
        invariant
            i <= count,
            out@ == start + spaces(i as nat),
        decreases count - i,
    {
        push_char(out, ' ');
        assert(start + spaces((i + 1) as nat) =~= (start + spaces(i as nat)).push(' '));
        i += 1;
    }
}

/// Builds the right-hand field of a row (see `right_field`).
pub fn build_right_field(col: &str, total_w: usize, used_w: usize, col_area_w: usize) -> (r: String)
    requires
        used_w + 1 + col_area_w <= usize::MAX,
    ensures
        r@ == right_field(col@, total_w as nat, used_w as nat, col_area_w as nat),
{
    let pad_spaces = total_w.saturating_sub(used_w + 1 + col_area_w);
    let cw = str_width(col);
    let col_w = if cw < col_area_w { cw } else { col_area_w };
    let inner_pad = col_area_w.saturating_sub(col_w);
    let mut out = String::new();
    push_spaces(&mut out, pad_spaces);
    push_char(&mut out, ' ');
    push_spaces(&mut out, inner_pad);
    let mut i: usize = 0;
    let n = col.unicode_len();
    let ghost head = out@;
    while i < n
        invariant
            n == col@.len(),
            i <= n,
            out@ == head + col@.subrange(0, i as int),
        decreases n - i,
    {
        push_char(&mut out, col.get_char(i));
        assert(head + col@.subrange(0, i as int + 1) =~= (head + col@.subrange(0, i as int)).push(col@[i as int]));
        i += 1;
    }
    assert(col@.subrange(0, n as int) =~= col@);
    out
}

/// The widest of the first `n` values of a sort column.
pub open spec fn widest(col: Seq<String>, n: int) -> usize
    decreases n,
{
    if n <= 0 {
        0
    } else {
        let rest = widest(col, n - 1);
        let w = str_width_of(col[n - 1]@);
        if w > rest { w } else { rest }
    }
}

/// The width of the right-hand column: its widest value, as a `u16`, at most
/// `MAX_RIGHT_COLUMN_WIDTH`; none without a sort column.
pub open spec fn right_width(col: Option<Seq<String>>) -> u16 {
    match col {
        None => 0,
        Some(c) => {
            let w = widest(c, c.len() as int) as u16;
            if w < MAX_RIGHT_COLUMN_WIDTH { w } else { MAX_RIGHT_COLUMN_WIDTH }
        },
    }
}

/// The view of an optional sort column.
pub open spec fn col_view(sort_column: Option<&Vec<String>>) -> Option<Seq<String>> {
    match sort_column {
        Some(c) => Some(c@),
        None => None,
    }
}

/// The width of the right-hand column for a sort column (see `right_width`).
pub fn right_col_width(sort_column: Option<&Vec<String>>) -> (r: u16)
    ensures
        r == right_width(col_view(sort_column)),
{
    let col = match sort_column {
        None => return 0,
        Some(c) => c,
    };
    let mut max_w: usize = 0;
    let mut i: usize = 0;
    while i < col.len()
        invariant
            i <= col@.len(),
            max_w == widest(col@, i as int),
        decreases col@.len() - i,
    {
        let w = str_width(col[i].as_str());
        if w > max_w {
            max_w = w;
        }
        i += 1;
    }
    let narrow = max_w as u16;
    if narrow < MAX_RIGHT_COLUMN_WIDTH {
        narrow
    } else {
        MAX_RIGHT_COLUMN_WIDTH
    }
}

/// Whether a pane `inner_w` wide shows the right-hand column for a sort column, and that
/// column's width.
pub fn right_col_config(inner_w: u16, sort_column: Option<&Vec<String>>) -> (r: (bool, u16))
    ensures
        r.1 == right_width(col_view(sort_column)),
        r.0 == (r.1 > 0 && inner_w >= r.1 + 1 + MIN_LEFT_WIDTH),
{
    let right_w = right_col_width(sort_column);
    let show_col = pane_show_col(inner_w, right_w);
    (show_col, right_w)
}

/// The sort value of row `idx`, unless there is none or it is empty.
pub fn right_col_at<'a>(sort_column: Option<&'a Vec<String>>, idx: usize) -> (r: Option<&'a str>)
    ensures
        r is Some <==> (sort_column is Some && idx < sort_column->0@.len()
            && sort_column->0@[idx as int]@.len() > 0),
        r is Some ==> r->0@ == sort_column->0@[idx as int]@,
{
    match sort_column {
        Some(c) => {
            if idx < c.len() {
                let s = c[idx].as_str();
                if s.is_empty() {
                    None
                } else {
                    Some(s)
                }
            } else {
                None
            }
        },
        None => None,
    }
}

/// The right-hand column of row `idx`: none when the column is not shown, else the row's
/// sort value (see `right_col_at`) in a column `right_w` wide.
pub fn right_col_for<'a>(show_col: bool, right_w: u16, sort_column: Option<&'a Vec<String>>, idx: usize) -> (r: RightCol<'a>)
    ensures
        !show_col ==> r.text is None && r.width == 0,
        show_col ==> r.width == right_w,
        show_col ==> (r.text is Some <==> (sort_column is Some && idx < sort_column->0@.len()
            && sort_column->0@[idx as int]@.len() > 0)),
        show_col && r.text is Some ==> r.text->0@ == sort_column->0@[idx as int]@,
{
    if !show_col {
        return RightCol::none();
    }
    RightCol { text: right_col_at(sort_column, idx), width: right_w }
}

} // verus!
