//! What the preview pane shows of a file: a notice when the file cannot or should not be
//! shown, or its first lines fitted to the pane.

use crate::engine::width::{fit_exact, sanitize_to_exact_width};
use vstd::prelude::*;

verus! {

/// The fewest lines that a preview reads.
pub const MIN_PREVIEW_LINES: usize = 3;

/// Files larger than this many bytes are not previewed.
pub const MAX_PREVIEW_SIZE: u64 = 5242880000;

/// How many bytes at the head of a file are checked for a document signature.
pub const HEADER_PEEK_BYTES: usize = 8;

/// How many bytes at the head of a file are read to tell text from binary.
pub const BINARY_PEEK_BYTES: usize = 1024;

/// Why a file's lines are not shown.
#[derive(Debug, Clone, Copy, PartialEq, Eq, Structural)]
pub enum PreviewNotice {
    NotRegular,
    TooLarge,
    Binary,
    PermissionDenied,
    NotFound,
}

/// The line shown for each notice.
pub open spec fn notice_spec(n: PreviewNotice) -> Seq<char> {
    match n {
        PreviewNotice::NotRegular => "[Not a regular file - preview skipped]"@,
        PreviewNotice::TooLarge => "[File too large for preview]"@,
        PreviewNotice::Binary => "[Binary file - preview hidden]"@,
        PreviewNotice::PermissionDenied => "[Error: Permission Denied]"@,
        PreviewNotice::NotFound => "[Error: File Not Found]"@,
    }
}

/// The line shown for a notice.
pub fn notice_text(n: PreviewNotice) -> (r: &'static str)
    ensures
        r@ == notice_spec(n),
{
    match n {
        PreviewNotice::NotRegular => "[Not a regular file - preview skipped]",
        PreviewNotice::TooLarge => "[File too large for preview]",
        PreviewNotice::Binary => "[Binary file - preview hidden]",
        PreviewNotice::PermissionDenied => "[Error: Permission Denied]",
        PreviewNotice::NotFound => "[Error: File Not Found]",
    }
}

/// The bytes of the signature that opens a PDF document, `%PDF-`.
pub open spec fn pdf_signature() -> Seq<u8> {
    seq![0x25u8, 0x50u8, 0x44u8, 0x46u8, 0x2du8]
}

/// Whether the head of a file marks it binary: it opens with a PDF signature or holds a zero
/// byte.
pub open spec fn looks_binary_spec(head: Seq<u8>) -> bool {
    (head.len() >= 5 && head.subrange(0, 5) == pdf_signature()) || head.contains(0u8)
}

/// Whether the bytes read from the head of a file mark it binary (see `looks_binary_spec`).
pub fn looks_binary(head: &[u8]) -> (r: bool)
    ensures
        r == looks_binary_spec(head@),
{
    if head.len() >= 5 && head[0] == 0x25 && head[1] == 0x50 && head[2] == 0x44
        && head[3] == 0x46 && head[4] == 0x2d {
        assert(head@.subrange(0, 5) =~= pdf_signature());
        return true;
    }
    assert(head@.len() >= 5 ==> head@.subrange(0, 5) != pdf_signature()) by {
        if head@.len() >= 5 && head@.subrange(0, 5) == pdf_signature() {
            assert(head@[0] == head@.subrange(0, 5)[0]);
            assert(head@[1] == head@.subrange(0, 5)[1]);
            assert(head@[2] == head@.subrange(0, 5)[2]);
            assert(head@[3] == head@.subrange(0, 5)[3]);
            assert(head@[4] == head@.subrange(0, 5)[4]);
        }
    }
    let mut i: usize = 0;
    while i < head.len()
        invariant
            i <= head@.len(),
            forall|j: int| 0 <= j < i ==> head@[j] != 0u8,
        decreases head@.len() - i,
    {
        if head[i] == 0 {
            assert(head@.contains(0u8));
            return true;
        }
        i += 1;
    }
    assert(!head@.contains(0u8));
    false
}

/// The notice for an opened file, from what its metadata says (whether it is a regular file,
/// and its length) and the bytes read from its head; none when its lines can be shown.
pub open spec fn opened_notice_spec(meta: Option<(bool, u64)>, head: Seq<u8>) -> Option<PreviewNotice> {
    match meta {
        Some((is_file, len)) if !is_file => Some(PreviewNotice::NotRegular),
        Some((_, len)) if len > MAX_PREVIEW_SIZE => Some(PreviewNotice::TooLarge),
        _ => if looks_binary_spec(head) { Some(PreviewNotice::Binary) } else { None },
    }
}

/// Decides whether an opened file is previewed (see `opened_notice_spec`).
pub fn opened_file_notice(meta: Option<(bool, u64)>, head: &[u8]) -> (r: Option<PreviewNotice>)
    ensures
        r == opened_notice_spec(meta, head@),
{
    if let Some((is_file, len)) = meta {
        if !is_file {
            return Some(PreviewNotice::NotRegular);
        }
        if len > MAX_PREVIEW_SIZE {
            return Some(PreviewNotice::TooLarge);
        }
    }
    if looks_binary(head) {
        Some(PreviewNotice::Binary)
    } else {
        None
    }
}

/// A preview of one line: `text` fitted to the pane.
pub fn notice_lines(text: &str, pane_width: usize) -> (r: Vec<String>)
    ensures
        r@.len() == 1,
        r@[0]@ == fit_exact(text@, pane_width as nat),
{
    let mut v: Vec<String> = Vec::new();
    v.push(sanitize_to_exact_width(text, pane_width));
    v
}

/// The line shown when reading a file failed for another reason, with the error's message.
pub open spec fn read_error_text(message: Seq<char>) -> Seq<char> {
    "[Error reading file: "@ + message + "]"@
}

/// The preview shown when reading a file failed for a reason other than a missing file or
/// permission (see `read_error_text`).
pub fn read_error_lines(message: &str, pane_width: usize) -> (r: Vec<String>)
    ensures
        r@.len() == 1,
        r@[0]@ == fit_exact(read_error_text(message@), pane_width as nat),
{
    let mut text = String::from_str("[Error reading file: ");
    text.append(message);
    text.append("]");
    notice_lines(text.as_str(), pane_width)
}

/// How many lines a preview shows of `available` lines when asked for `max_lines`: never
/// fewer than `MIN_PREVIEW_LINES` are asked for.
pub open spec fn shown_line_count(available: nat, max_lines: nat) -> nat {
    let limit = if max_lines > MIN_PREVIEW_LINES { max_lines } else { MIN_PREVIEW_LINES as nat };
    if available < limit { available } else { limit }
}

/// The preview of a text file from the lines read from it: each shown line fitted to the
/// pane, or a single notice that the file is empty.
pub fn preview_from_lines(lines: &[String], max_lines: usize, pane_width: usize) -> (r: Vec<String>)
    ensures
        shown_line_count(lines@.len(), max_lines as nat) == 0 ==> r@.len() == 1
            && r@[0]@ == fit_exact("[Empty file]"@, pane_width as nat),
        shown_line_count(lines@.len(), max_lines as nat) > 0 ==> r@.len() == shown_line_count(lines@.len(), max_lines as nat),
        shown_line_count(lines@.len(), max_lines as nat) > 0 ==> forall|i: int| 0 <= i < r@.len()
            ==> #[trigger] r@[i]@ == fit_exact(lines@[i]@, pane_width as nat),
{
    let limit = if max_lines > MIN_PREVIEW_LINES { max_lines } else { MIN_PREVIEW_LINES };
    let count = if lines.len() < limit { lines.len() } else { limit };
    let mut out: Vec<String> = Vec::new();
    let mut i: usize = 0;
    while i < count
        invariant
            count <= lines@.len(),
            i <= count,
            out@.len() == i,
            forall|j: int| 0 <= j < i ==> #[trigger] out@[j]@ == fit_exact(lines@[j]@, pane_width as nat),
        decreases count - i,
    {
        out.push(sanitize_to_exact_width(lines[i].as_str(), pane_width));
        i += 1;
    }
    if out.len() == 0 {
        return notice_lines("[Empty file]", pane_width);
    }
    out
}

} // verus!
