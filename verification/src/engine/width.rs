//! Terminal display width of text, and fitting a line into a pane of a given width.

use crate::utils::push_char;
use vstd::prelude::*;

verus! {

/// The width that `unicode-width`'s tables give a character from U+00A0 on.
pub uninterp spec fn table_width(c: char) -> u8;

/// The displayed width of a character in columns as `unicode-width` gives it: printable ASCII
/// is one column, control codes have none, and every other character has its table width.
pub open spec fn char_width_spec(c: char) -> Option<usize> {
    if '\u{20}' <= c && c <= '\u{7e}' {
        Some(1usize)
    } else if '\u{a0}' <= c {
        Some(table_width(c) as usize)
    } else {
        None
    }
}

/// The displayed width of a character (`UnicodeWidthChar::width`).
#[verifier::external_body]
pub(crate) fn char_width(c: char) -> (r: Option<usize>)
    ensures
        '\u{20}' <= c && c <= '\u{7e}' ==> r == Some(1usize),
        '\u{a0}' <= c ==> r == Some(table_width(c) as usize),
        c <= '\u{1f}' || ('\u{7f}' <= c && c <= '\u{9f}') ==> r is None,
{
    unicode_width::UnicodeWidthChar::width(c)
}

/// A control character: general category Cc, the C0 and C1 codes (`char::is_control`).
pub open spec fn is_control_spec(c: char) -> bool {
    c <= '\u{1f}' || ('\u{7f}' <= c && c <= '\u{9f}')
}

/// Whether `c` is a control character.
pub fn is_control(c: char) -> (r: bool)
    ensures
        r == is_control_spec(c),
{
    c <= '\u{1f}' || ('\u{7f}' <= c && c <= '\u{9f}')
}

/// The width that a character adds to a line: its displayed width, none for a control code.
pub open spec fn columns(c: char) -> nat {
    match char_width_spec(c) {
        Some(w) => w as nat,
        None => 0,
    }
}

/// The total of the columns of the characters of a text.
pub open spec fn text_columns(s: Seq<char>) -> nat
    decreases s.len(),
{
    if s.len() == 0 {
        0
    } else {
        text_columns(s.drop_last()) + columns(s.last())
    }
}

/// `n` spaces.
pub open spec fn spaces(n: nat) -> Seq<char> {
    Seq::new(n, |i: int| ' ')
}

/// One character of fitting a line into `width` columns, having written `out` of `cur`
/// columns: a tab becomes the spaces up to the next multiple of four columns, other control
/// characters are dropped, and a character (or tab) that would pass the width ends the line
/// (`None`).
pub open spec fn fit_step(c: char, out: Seq<char>, cur: nat, width: nat) -> Option<(Seq<char>, nat)> {
    if c == '\t' {
        let n = (4 - (cur % 4)) as nat;
        if cur + n > width {
            None
        } else {
            Some((out + spaces(n), cur + n))
        }
    } else if is_control_spec(c) {
        Some((out, cur))
    } else if cur + columns(c) > width {
        None
    } else {
        Some((out.push(c), cur + columns(c)))
    }
}

/// Fitting `line[k..]` into `width` columns (see `fit_step`), having written `out` of `cur`
/// columns so far: what has been written when the line or the room ends, and its width.
pub open spec fn fit_from(line: Seq<char>, k: int, out: Seq<char>, cur: nat, width: nat) -> (Seq<char>, nat)
    decreases line.len() - k,
{
    if k < 0 || k >= line.len() {
        (out, cur)
    } else {
        match fit_step(line[k], out, cur, width) {
            Some((out2, cur2)) => fit_from(line, k + 1, out2, cur2, width),
            None => (out, cur),
        }
    }
}

/// A line fitted to exactly `width` columns: the fitted text, padded with spaces.
pub open spec fn fit_exact(line: Seq<char>, width: nat) -> Seq<char> {
    let (body, used) = fit_from(line, 0, Seq::empty(), 0, width);
    body + spaces((width - used) as nat)
}

/// The columns of a text and one more character.
proof fn lemma_text_columns_push(s: Seq<char>, c: char)
    ensures
        text_columns(s.push(c)) == text_columns(s) + columns(c),
{
    assert(s.push(c).drop_last() == s);
}

/// Fitting never writes a control character and never passes the width, and what it writes
/// is exactly as wide as it says.
proof fn lemma_fit_from_sound(line: Seq<char>, k: int, out: Seq<char>, cur: nat, width: nat)
    requires
        text_columns(out) == cur,
        cur <= width,
        forall|i: int| 0 <= i < out.len() ==> !is_control_spec(#[trigger] out[i]),
    ensures
        text_columns(fit_from(line, k, out, cur, width).0) == fit_from(line, k, out, cur, width).1,
        fit_from(line, k, out, cur, width).1 <= width,
        forall|i: int| 0 <= i < fit_from(line, k, out, cur, width).0.len() ==> !is_control_spec(#[trigger] fit_from(line, k, out, cur, width).0[i]),
    decreases line.len() - k,
{
    if k < 0 || k >= line.len() {
    } else {
        let c = line[k];
        if c == '\t' {
            let n = (4 - (cur % 4)) as nat;
            if cur + n > width {
            } else {
                lemma_spaces_sound(out, n);
                lemma_fit_from_sound(line, k + 1, out + spaces(n), cur + n, width);
            }
        } else if is_control_spec(c) {
            lemma_fit_from_sound(line, k + 1, out, cur, width);
        } else if cur + columns(c) > width {
        } else {
            lemma_text_columns_push(out, c);
            lemma_fit_from_sound(line, k + 1, out.push(c), cur + columns(c), width);
        }
    }
}

/// Appending spaces adds one column for each and no control character.
proof fn lemma_spaces_sound(out: Seq<char>, n: nat)
    ensures
        text_columns(out + spaces(n)) == text_columns(out) + n,
        forall|i: int| 0 <= i < n ==> !is_control_spec(#[trigger] spaces(n)[i]),
        forall|i: int| 0 <= i < n ==> #[trigger] spaces(n)[i] == ' ',
    decreases n,
{
    if n == 0 {
        assert(out + spaces(0) == out);
    } else {
        lemma_spaces_sound(out, (n - 1) as nat);
        assert(out + spaces(n) == (out + spaces((n - 1) as nat)).push(' '));
        lemma_text_columns_push(out + spaces((n - 1) as nat), ' ');
    }
}

/// Sanitizing a line to the width of a pane: the result is exactly `pane_width` columns wide
/// and holds no control character.
pub proof fn lemma_fit_exact_width(line: Seq<char>, pane_width: nat)
    ensures
        text_columns(fit_exact(line, pane_width)) == pane_width,
        forall|i: int| 0 <= i < fit_exact(line, pane_width).len() ==> !is_control_spec(#[trigger] fit_exact(line, pane_width)[i]),
{
    let (body, used) = fit_from(line, 0, Seq::empty(), 0, pane_width);
    assert(text_columns(Seq::<char>::empty()) == 0);
    lemma_fit_from_sound(line, 0, Seq::empty(), 0, pane_width);
    lemma_spaces_sound(body, (pane_width - used) as nat);
    let r = fit_exact(line, pane_width);
    assert forall|i: int| 0 <= i < r.len() implies !is_control_spec(#[trigger] r[i]) by {
        if i < body.len() {
            assert(r[i] == body[i]);
        } else {
            assert(r[i] == spaces((pane_width - used) as nat)[i - body.len()]);
        }
    }
}

/// Removes control characters from `line`, expands tabs to the next multiple of four
/// columns, and cuts or pads it with spaces to exactly `pane_width` columns.
pub fn sanitize_to_exact_width(line: &str, pane_width: usize) -> (r: String)
    ensures
        r@ == fit_exact(line@, pane_width as nat),
        text_columns(r@) == pane_width,
        forall|i: int| 0 <= i < r@.len() ==> !is_control_spec(#[trigger] r@[i]),
{
    let n = line.unicode_len();
    let mut out = String::new();
    let mut cur: usize = 0;
    let mut k: usize = 0;
    let ghost width = pane_width as nat;
    while k < n
        invariant
            n == line@.len(),
            width == pane_width,
            k <= n,
            cur <= pane_width,
            fit_from(line@, 0, Seq::empty(), 0, width) == fit_from(line@, k as int, out@, cur as nat, width),
        ensures
            fit_from(line@, 0, Seq::empty(), 0, width) == (out@, cur as nat),
        decreases n - k,
    {
        let c = line.get_char(k);
        if c == '\t' {
            let count: usize = 4 - (cur % 4);
            assert(line@[k as int] == '\t');
            if count > pane_width - cur {
                assert(fit_from(line@, k as int, out@, cur as nat, width) == (out@, cur as nat));
                break;
            }
            let ghost before = out@;
            let mut s: usize = 0;
            while s < count
                invariant
                    s <= count,
                    out@ == before + spaces(s as nat),
                decreases count - s,
            {
                push_char(&mut out, ' ');
                assert(before + spaces((s + 1) as nat) == (before + spaces(s as nat)).push(' '));
                s += 1;
            }
            cur = cur + count;
        } else if is_control(c) {
        } else {
            let w: usize = match char_width(c) {
                Some(w) => w,
                None => 0,
            };
            assert(w == columns(c));
            if w > pane_width - cur {
                assert(fit_from(line@, k as int, out@, cur as nat, width) == (out@, cur as nat));
                break;
            }
            push_char(&mut out, c);
            cur = cur + w;
        }
        k += 1;
    }
    let ghost body = out@;
    let pad: usize = pane_width - cur;
    let mut s: usize = 0;
    while s < pad
        invariant
            s <= pad,
            out@ == body + spaces(s as nat),
        decreases pad - s,
    {
        push_char(&mut out, ' ');
        assert(body + spaces((s + 1) as nat) == (body + spaces(s as nat)).push(' '));
        s += 1;
    }
    proof {
        lemma_fit_exact_width(line@, width);
    }
    out
}

} // verus!
