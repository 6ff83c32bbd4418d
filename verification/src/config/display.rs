//! Display options: the status line format of the file information, date formats, `bat`
//! preview arguments, entry padding, and the placement of dialogs.

use crate::utils::{chars_of, decimal_string, decimal_text, string_of_range, text_eq};
use vstd::prelude::*;
use vstd::string::StringSliceAdditionalSpecFns;

verus! {

/// A file attribute that the status line can show.
#[derive(Debug, Clone, Copy, PartialEq, Eq, Structural)]
pub enum StatusTag {
    Perms,
    Size,
    Mtime,
    Btime,
    Atime,
    Type,
    Owner,
    Group,
}

/// A piece of the status line: literal text, or an attribute.
#[derive(Debug, Clone, PartialEq, Eq)]
pub enum StatusSegment {
    Literal(String),
    Tag(StatusTag),
}

/// The view of a status line piece.
pub enum SegmentView {
    Literal(Seq<char>),
    Tag(StatusTag),
}

/// The view of a status line piece.
pub open spec fn segment_view(s: StatusSegment) -> SegmentView {
    match s {
        StatusSegment::Literal(t) => SegmentView::Literal(t@),
        StatusSegment::Tag(t) => SegmentView::Tag(t),
    }
}

/// The attribute that a tag name inside braces names, if any.
pub open spec fn tag_of(name: Seq<char>) -> Option<StatusTag> {
    if name == "perms"@ {
        Some(StatusTag::Perms)
    } else if name == "size"@ {
        Some(StatusTag::Size)
    } else if name == "mtime"@ || name == "modified"@ {
        Some(StatusTag::Mtime)
    } else if name == "btime"@ || name == "created"@ {
        Some(StatusTag::Btime)
    } else if name == "atime"@ || name == "accessed"@ {
        Some(StatusTag::Atime)
    } else if name == "type"@ {
        Some(StatusTag::Type)
    } else if name == "owner"@ {
        Some(StatusTag::Owner)
    } else if name == "group"@ {
        Some(StatusTag::Group)
    } else {
        None
    }
}

/// The index of the first `c` in `s` at or after `i`, if any.
pub open spec fn find_from(s: Seq<char>, c: char, i: int) -> Option<int>
    decreases s.len() - i,
{
    if i < 0 || i >= s.len() {
        None
    } else if s[i] == c {
        Some(i)
    } else {
        find_from(s, c, i + 1)
    }
}

/// The pieces of a status format from `cursor` on: each `{name}` becomes the attribute it
/// names (an unknown name is dropped), the text between tags becomes literal pieces, and
/// from an opening brace without a closing one the rest is literal.
pub open spec fn segments_from(s: Seq<char>, cursor: int) -> Seq<SegmentView>
    decreases s.len() - cursor,
{
    let rest: Seq<SegmentView> = if 0 <= cursor < s.len() {
        seq![SegmentView::Literal(s.subrange(cursor, s.len() as int))]
    } else {
        Seq::empty()
    };
    if cursor < 0 || cursor > s.len() {
        Seq::empty()
    } else {
        match find_from(s, '{', cursor) {
            None => rest,
            Some(start) => match find_from(s, '}', start) {
                None => rest,
                Some(end) => {
                    proof {
                        lemma_find_from_bounds(s, '{', cursor);
                        lemma_find_from_bounds(s, '}', start);
                    }
                    let lit: Seq<SegmentView> = if start > cursor {
                        seq![SegmentView::Literal(s.subrange(cursor, start))]
                    } else {
                        Seq::empty()
                    };
                    let tag: Seq<SegmentView> = match tag_of(s.subrange(start + 1, end)) {
                        Some(t) => seq![SegmentView::Tag(t)],
                        None => Seq::empty(),
                    };
                    if end + 1 > cursor {
                        lit + tag + segments_from(s, end + 1)
                    } else {
                        Seq::empty()
                    }
                },
            },
        }
    }
}

/// The first `c` at or after `i` lies in `[i, len)`.
pub proof fn lemma_find_from_bounds(s: Seq<char>, c: char, i: int)
    ensures
        find_from(s, c, i) matches Some(k) ==> i <= k < s.len() && s[k] == c,
    decreases s.len() - i,
{
    if 0 <= i < s.len() && s[i] != c {
        lemma_find_from_bounds(s, c, i + 1);
    }
}

/// The names by which a status format refers to an attribute: its own name, and for the three
/// times also the long word (`modified`, `created`, `accessed`).
pub open spec fn names_tag(name: Seq<char>, t: StatusTag) -> bool {
    match t {
        StatusTag::Perms => name == "perms"@,
        StatusTag::Size => name == "size"@,
        StatusTag::Mtime => name == "mtime"@ || name == "modified"@,
        StatusTag::Btime => name == "btime"@ || name == "created"@,
        StatusTag::Atime => name == "atime"@ || name == "accessed"@,
        StatusTag::Type => name == "type"@,
        StatusTag::Owner => name == "owner"@,
        StatusTag::Group => name == "group"@,
    }
}

/// `find_from` gives the first occurrence: a `c` at `k` with none in `[i, k)`.
proof fn lemma_find_from_first(s: Seq<char>, c: char, i: int, k: int)
    requires
        0 <= i <= k < s.len(),
        s[k] == c,
        forall|j: int| i <= j < k ==> s[j] != c,
    ensures
        find_from(s, c, i) == Some(k),
    decreases k - i,
{
    if i < k {
        lemma_find_from_first(s, c, i + 1, k);
    }
}

/// A format made of one tag in braces shows exactly the attribute that the tag names:
/// `{owner}` is the owner, `{group}` the group, `{mtime}` and `{modified}` the modification
/// time, and so on for every attribute.
pub proof fn lemma_tag_in_braces(name: Seq<char>, t: StatusTag)
    requires
        names_tag(name, t),
    ensures
        segments_from(seq!['{'] + name + seq!['}'], 0) == seq![SegmentView::Tag(t)],
{
    let p = seq!['{'] + name + seq!['}'];
    lemma_tag_then_rest(name, t, Seq::empty());
    assert(p + Seq::<char>::empty() =~= p);
    assert(segments_from(Seq::<char>::empty(), 0) =~= Seq::<SegmentView>::empty());
    assert(seq![SegmentView::Tag(t)] + Seq::<SegmentView>::empty() =~= seq![SegmentView::Tag(t)]);
}

/// A tag name names its attribute, and holds no brace.
proof fn lemma_tag_name(name: Seq<char>, t: StatusTag)
    requires
        names_tag(name, t),
    ensures
        tag_of(name) == Some(t),
        forall|j: int| 0 <= j < name.len() ==> name[j] != '}' && name[j] != '{',
{
    reveal_strlit("perms");
    reveal_strlit("size");
    reveal_strlit("mtime");
    reveal_strlit("modified");
    reveal_strlit("btime");
    reveal_strlit("created");
    reveal_strlit("atime");
    reveal_strlit("accessed");
    reveal_strlit("type");
    reveal_strlit("owner");
    reveal_strlit("group");
    assert("perms"@[0] == 'p' && "size"@[0] == 's' && "mtime"@[0] == 'm' && "modified"@[0] == 'm'
        && "btime"@[0] == 'b' && "created"@[0] == 'c' && "atime"@[0] == 'a' && "accessed"@[0] == 'a'
        && "type"@[0] == 't' && "owner"@[0] == 'o' && "group"@[0] == 'g');
}

/// Where `c` does not occur from `i` on, `find_from` finds nothing.
proof fn lemma_find_from_absent(s: Seq<char>, c: char, i: int)
    requires
        forall|j: int| i <= j < s.len() ==> s[j] != c,
    ensures
        find_from(s, c, i) is None,
    decreases s.len() - i,
{
    if 0 <= i < s.len() {
        lemma_find_from_absent(s, c, i + 1);
    }
}

/// A format without an opening brace is shown as it is: one literal piece (none for an empty
/// format).
pub proof fn lemma_format_without_tags(s: Seq<char>)
    requires
        forall|j: int| 0 <= j < s.len() ==> s[j] != '{',
    ensures
        segments_from(s, 0) == (if s.len() > 0 {
            seq![SegmentView::Literal(s)]
        } else {
            Seq::<SegmentView>::empty()
        }),
{
    lemma_find_from_absent(s, '{', 0);
    assert(s.subrange(0, s.len() as int) =~= s);
}

/// Searching the text after a prefix finds what searching that text alone finds, moved by the
/// prefix's length.
proof fn lemma_find_from_after_prefix(p: Seq<char>, r: Seq<char>, c: char, k: int)
    requires
        0 <= k,
    ensures
        find_from(p + r, c, p.len() + k) == (match find_from(r, c, k) {
            Some(x) => Some(x + p.len()),
            None => None,
        }),
    decreases r.len() - k,
{
    if k < r.len() {
        assert((p + r)[p.len() + k] == r[k]);
        lemma_find_from_after_prefix(p, r, c, k + 1);
    }
}

/// The pieces of the text after a prefix do not depend on the prefix.
proof fn lemma_segments_after_prefix(p: Seq<char>, r: Seq<char>, k: int)
    requires
        0 <= k <= r.len(),
    ensures
        segments_from(p + r, p.len() + k) == segments_from(r, k),
    decreases r.len() - k,
{
    let s = p + r;
    let n = p.len();
    lemma_find_from_after_prefix(p, r, '{', k);
    assert(s.subrange(n + k, s.len() as int) =~= r.subrange(k, r.len() as int));
    match find_from(r, '{', k) {
        None => {},
        Some(start) => {
            lemma_find_from_bounds(r, '{', k);
            lemma_find_from_after_prefix(p, r, '}', start);
            match find_from(r, '}', start) {
                None => {},
                Some(end) => {
                    lemma_find_from_bounds(r, '}', start);
                    assert(s.subrange(n + k, n + start) =~= r.subrange(k, start));
                    assert(s.subrange(n + start + 1, n + end) =~= r.subrange(start + 1, end));
                    lemma_segments_after_prefix(p, r, end + 1);
                },
            }
        },
    }
}

/// A tag in braces at the start of a format gives the attribute it names, followed by the
/// pieces of the rest of the format: `{owner}:{group}` shows the owner, `:`, then the group.
pub proof fn lemma_tag_then_rest(name: Seq<char>, t: StatusTag, rest: Seq<char>)
    requires
        names_tag(name, t),
    ensures
        segments_from(seq!['{'] + name + seq!['}'] + rest, 0) == seq![SegmentView::Tag(t)] + segments_from(rest, 0),
{
    lemma_tag_name(name, t);
    let p = seq!['{'] + name + seq!['}'];
    let s = p + rest;
    let end: int = name.len() as int + 1;
    assert(s[0] == '{');
    assert(s[end] == '}');
    assert(forall|j: int| 1 <= j < end ==> s[j] == name[j - 1]);
    lemma_find_from_first(s, '{', 0, 0);
    lemma_find_from_first(s, '}', 0, end);
    assert(s.subrange(1, end) =~= name);
    lemma_segments_after_prefix(p, rest, 0);
    assert(segments_from(s, 0) =~= seq![SegmentView::Tag(t)] + segments_from(rest, 0));
}

/// The index of the first `c` in `cs` at or after `i`.
fn find_char_from(cs: &Vec<char>, c: char, i: usize) -> (r: Option<usize>)
    requires
        i <= cs@.len(),
    ensures
        match r {
            Some(k) => find_from(cs@, c, i as int) == Some(k as int),
            None => find_from(cs@, c, i as int) is None,
        },
{
    let mut k = i;
    while k < cs.len()
        invariant
            i <= k <= cs@.len(),
            find_from(cs@, c, i as int) == find_from(cs@, c, k as int),
        decreases cs@.len() - k,
    {
        if cs[k] == c {
            return Some(k);
        }
        k += 1;
    }
    None
}

/// The attribute that a tag name names.
fn tag_of_exec(name: &str) -> (r: Option<StatusTag>)
    ensures
        r == tag_of(name@),
{
    if text_eq(name, "perms") {
        Some(StatusTag::Perms)
    } else if text_eq(name, "size") {
        Some(StatusTag::Size)
    } else if text_eq(name, "mtime") || text_eq(name, "modified") {
        Some(StatusTag::Mtime)
    } else if text_eq(name, "btime") || text_eq(name, "created") {
        Some(StatusTag::Btime)
    } else if text_eq(name, "atime") || text_eq(name, "accessed") {
        Some(StatusTag::Atime)
    } else if text_eq(name, "type") {
        Some(StatusTag::Type)
    } else if text_eq(name, "owner") {
        Some(StatusTag::Owner)
    } else if text_eq(name, "group") {
        Some(StatusTag::Group)
    } else {
        None
    }
}

/// The views of a list of status line pieces.
pub open spec fn segment_views(s: Seq<StatusSegment>) -> Seq<SegmentView> {
    s.map_values(|x: StatusSegment| segment_view(x))
}

/// Splits a status line format such as `{perms} | {size}` into its pieces (see `segments_from`).
pub fn parse_status_format(fmt: &str) -> (r: Vec<StatusSegment>)
    ensures
        segment_views(r@) == segments_from(fmt@, 0),
{
    let cs = chars_of(fmt);
    let n = cs.len();
    let mut segments: Vec<StatusSegment> = Vec::new();
    let mut cursor: usize = 0;
    loop
        invariant
            cs@ == fmt@,
            n == cs@.len(),
            cursor <= n,
            segments_from(fmt@, 0) == segment_views(segments@) + segments_from(fmt@, cursor as int),
        ensures
            segments_from(fmt@, 0) == segment_views(segments@) + segments_from(fmt@, cursor as int),
            segments_from(fmt@, cursor as int) == (if cursor < n {
                seq![SegmentView::Literal(fmt@.subrange(cursor as int, n as int))]
            } else {
                Seq::<SegmentView>::empty()
            }),
        decreases n - cursor,
    {
        let ghost before = segment_views(segments@);
        let start = match find_char_from(&cs, '{', cursor) {
            Some(s) => s,
            None => {
                break;
            },
        };
        proof {
            lemma_find_from_bounds(fmt@, '{', cursor as int);
        }
        let end = match find_char_from(&cs, '}', start) {
            Some(e) => e,
            None => {
                break;
            },
        };
        proof {
            lemma_find_from_bounds(fmt@, '}', start as int);
        }
        let ghost lit: Seq<SegmentView> = if start > cursor {
            seq![SegmentView::Literal(fmt@.subrange(cursor as int, start as int))]
        } else {
            Seq::empty()
        };
        if start > cursor {
            segments.push(StatusSegment::Literal(string_of_range(cs.as_slice(), cursor, start)));
        }
        assert(segment_views(segments@) == before + lit);
        let name = string_of_range(cs.as_slice(), start + 1, end);
        let ghost tag: Seq<SegmentView> = match tag_of(fmt@.subrange(start + 1, end as int)) {
            Some(t) => seq![SegmentView::Tag(t)],
            None => Seq::empty(),
        };
        match tag_of_exec(name.as_str()) {
            Some(t) => {
                segments.push(StatusSegment::Tag(t));
            },
            None => {},
        }
        assert(segment_views(segments@) == before + lit + tag);
        cursor = end + 1;
    }
    let ghost before = segment_views(segments@);
    if cursor < n {
        segments.push(StatusSegment::Literal(string_of_range(cs.as_slice(), cursor, n)));
        assert(segment_views(segments@) == before + seq![SegmentView::Literal(fmt@.subrange(cursor as int, n as int))]);
    } else {
        assert(segment_views(segments@) == before);
    }
    segments
}

/// The kind of an item of a `strftime` format as `chrono` reads it.
#[derive(Debug, Clone, Copy, PartialEq, Eq, Structural)]
pub enum FormatItemKind {
    /// Literal text or spaces.
    Text,
    /// Anything that formats a part of a date or time.
    Field,
    /// A specifier that `chrono` does not know.
    Invalid,
}

/// The kinds of the items that `chrono::format::StrftimeItems` reads from a format.
pub uninterp spec fn strftime_kinds(fmt: Seq<char>) -> Seq<FormatItemKind>;

/// Reads a `strftime` format into its items with `chrono::format::StrftimeItems` and gives the
/// kind of each: borrowed literal and space items are text, an error item is invalid, and any
/// other item a field (owned literals and spaces are counted as fields, as the format check
/// has it, though this parser does not produce them); the list is a function of the format
/// alone.
#[verifier::external_body]
fn strftime_item_kinds(fmt: &str) -> (r: Vec<FormatItemKind>)
    ensures
        r@ == strftime_kinds(fmt@),
{
    chrono::format::StrftimeItems::new(fmt).map(|item| match item {
        chrono::format::Item::Literal(_) => FormatItemKind::Text,
        chrono::format::Item::Space(_) => FormatItemKind::Text,
        chrono::format::Item::OwnedLiteral(_) => FormatItemKind::Field,
        chrono::format::Item::OwnedSpace(_) => FormatItemKind::Field,
        chrono::format::Item::Numeric(_, _) => FormatItemKind::Field,
        chrono::format::Item::Fixed(_) => FormatItemKind::Field,
        chrono::format::Item::Error => FormatItemKind::Invalid,
    }).collect()
}

/// The date format used: the user's when given, not empty, at most `max_len` bytes long,
/// valid, and formatting at least one date or time field; the default otherwise.
pub open spec fn valid_format(fmt: Option<Seq<char>>, default_fmt: Seq<char>, max_len: nat) -> Seq<char> {
    match fmt {
        None => default_fmt,
        Some(u) => if u.len() == 0 || vstd::utf8::encode_utf8(u).len() > max_len
            || strftime_kinds(u).contains(FormatItemKind::Invalid)
            || !strftime_kinds(u).contains(FormatItemKind::Field) {
            default_fmt
        } else {
            u
        },
    }
}

/// Checks a user's date format (see `valid_format`).
#[verifier::loop_isolation(false)]
pub fn validate_strftime_format(fmt: Option<String>, default_fmt: &str, max_len: usize) -> (r: String)
    ensures
        r@ == valid_format(match fmt {
            Some(s) => Some(s@),
            None => None,
        }, default_fmt@, max_len as nat),
{
    let user = match fmt {
        Some(u) => u,
        None => {
            return String::from_str(default_fmt);
        },
    };
    let blen = user.as_str().as_bytes().len();
    assert(blen == vstd::utf8::encode_utf8(user@).len());
    if user.unicode_len() == 0 || blen > max_len {
        return String::from_str(default_fmt);
    }
    let kinds = strftime_item_kinds(user.as_str());
    let mut has_field = false;
    let mut i: usize = 0;
    while i < kinds.len()
        invariant
            i <= kinds@.len(),
            kinds@ == strftime_kinds(user@),
            forall|j: int| 0 <= j < i ==> kinds@[j] != FormatItemKind::Invalid,
            has_field == (exists|j: int| 0 <= j < i && kinds@[j] == FormatItemKind::Field),
        decreases kinds@.len() - i,
    {
        if kinds[i] == FormatItemKind::Invalid {
            assert(kinds@.contains(FormatItemKind::Invalid));
            return String::from_str(default_fmt);
        }
        if kinds[i] == FormatItemKind::Field {
            has_field = true;
        }
        i += 1;
    }
    assert(!kinds@.contains(FormatItemKind::Invalid));
    if has_field {
        user
    } else {
        assert(!kinds@.contains(FormatItemKind::Field));
        String::from_str(default_fmt)
    }
}

/// How `bat` decorates a preview.
#[derive(Debug, Clone, Copy, PartialEq, Eq, Structural)]
pub enum BatStyle {
    Plain,
    Numbers,
    Full,
}

/// How files are previewed.
#[derive(Debug, Clone, Copy, PartialEq, Eq, Structural)]
pub enum PreviewMethod {
    Internal,
    Bat,
}

/// Preview options.
pub struct PreviewOptions {
    pub method: PreviewMethod,
    pub style: BatStyle,
    pub theme: Option<String>,
    pub wrap: bool,
    pub tab_width: usize,
}

/// `text` followed by the decimal numeral of `n`.
pub open spec fn with_number(text: Seq<char>, n: nat) -> Seq<char> {
    text + decimal_text(n)
}

/// The `--style=` argument of a `bat` style.
pub open spec fn style_arg(s: BatStyle) -> Seq<char> {
    match s {
        BatStyle::Plain => "--style=plain"@,
        BatStyle::Numbers => "--style=numbers"@,
        BatStyle::Full => "--style=full"@,
    }
}

/// The arguments given to `bat` for a preview.
pub open spec fn bat_args_spec(o: PreviewOptions, default_theme: Seq<char>, pane_width: nat) -> Seq<Seq<char>> {
    let base = seq![
        "--color=always"@,
        "--paging=never"@,
        with_number("--tabs="@, o.tab_width as nat),
        style_arg(o.style),
        "--theme"@,
        match o.theme {
            Some(t) => t@,
            None => default_theme,
        },
    ];
    if o.wrap {
        base + seq![with_number("--terminal-width="@, pane_width), "--wrap=character"@]
    } else {
        base + seq!["--wrap=never"@]
    }
}

/// `prefix` followed by the decimal numeral of `n`.
fn numbered(prefix: &str, n: usize) -> (r: String)
    ensures
        r@ == with_number(prefix@, n as nat),
{
    let digits = decimal_string(n as u64);
    let mut out = String::from_str(prefix);
    out.append(digits.as_str());
    out
}

impl PreviewOptions {
    /// The internal previewer, plain style, no theme, no wrapping, tabs of four.
    pub fn new() -> (r: Self)
        ensures
            r.method == PreviewMethod::Internal,
            r.style == BatStyle::Plain,
            r.theme is None,
            !r.wrap,
            r.tab_width == 4,
    {
        PreviewOptions { method: PreviewMethod::Internal, style: BatStyle::Plain, theme: None, wrap: false, tab_width: 4 }
    }

    /// How files are previewed.
    pub fn method(&self) -> (r: PreviewMethod)
        ensures
            r == self.method,
    {
        self.method
    }

    /// The command line arguments for `bat`: colours on, no pager, the tab width, the style,
    /// the theme (the configured one, else `default_theme`), and wrapping at `pane_width`
    /// columns when wrapping is on.
    pub fn bat_args(&self, default_theme: &str, pane_width: usize) -> (r: Vec<String>)
        ensures
            r@.map_values(|s: String| s@) == bat_args_spec(*self, default_theme@, pane_width as nat),
    {
        let mut args: Vec<String> = Vec::new();
        args.push(String::from_str("--color=always"));
        args.push(String::from_str("--paging=never"));
        args.push(numbered("--tabs=", self.tab_width));
        args.push(match self.style {
            BatStyle::Plain => String::from_str("--style=plain"),
            BatStyle::Numbers => String::from_str("--style=numbers"),
            BatStyle::Full => String::from_str("--style=full"),
        });
        args.push(String::from_str("--theme"));
        args.push(match &self.theme {
            Some(t) => t.clone(),
            None => String::from_str(default_theme),
        });
        if self.wrap {
            args.push(numbered("--terminal-width=", pane_width));
            args.push(String::from_str("--wrap=character"));
        } else {
            args.push(String::from_str("--wrap=never"));
        }
        assert(args@.map_values(|s: String| s@) =~= bat_args_spec(*self, default_theme@, pane_width as nat));
        args
    }
}

/// The spaces put before an entry's name: as many as `entry_padding`, at most four.
pub open spec fn padding_len(entry_padding: u8) -> nat {
    if entry_padding < 4 { entry_padding as nat } else { 4 }
}

/// The spaces put before an entry's name.
pub fn padding_str(entry_padding: u8) -> (r: &'static str)
    ensures
        r@ == Seq::new(padding_len(entry_padding), |i: int| ' '),
{
    proof {
        reveal_strlit("");
        reveal_strlit(" ");
        reveal_strlit("  ");
        reveal_strlit("   ");
        reveal_strlit("    ");
    }
    match entry_padding {
        0 => {
            assert(""@ =~= Seq::new(0, |i: int| ' '));
            ""
        },
        1 => {
            assert(" "@ =~= Seq::new(1, |i: int| ' '));
            " "
        },
        2 => {
            assert("  "@ =~= Seq::new(2, |i: int| ' '));
            "  "
        },
        3 => {
            assert("   "@ =~= Seq::new(3, |i: int| ' '));
            "   "
        },
        _ => {
            assert("    "@ =~= Seq::new(4, |i: int| ' '));
            "    "
        },
    }
}

/// Where a dialog is placed.
#[derive(Debug, Clone, Copy, PartialEq, Eq, Structural)]
pub enum DialogPosition {
    Center,
    Top,
    Bottom,
    Left,
    Right,
    TopLeft,
    TopRight,
    BottomLeft,
    BottomRight,
    Custom(u16, u16),
}

/// A dialog's placement with unified borders: the top corners and custom placements on the
/// top edge move down three rows, below the shared title line.
pub open spec fn adjusted_position(pos: DialogPosition, is_unified: bool) -> DialogPosition {
    if is_unified {
        match pos {
            DialogPosition::TopRight => DialogPosition::Custom(100, 3),
            DialogPosition::TopLeft => DialogPosition::Custom(0, 3),
            DialogPosition::Custom(x, y) => if y == 0 { DialogPosition::Custom(x, 3) } else { pos },
            _ => pos,
        }
    } else {
        pos
    }
}

/// A dialog's placement, adjusted for unified borders (see `adjusted_position`).
pub fn adjusted_dialog_position(pos: DialogPosition, is_unified: bool) -> (r: DialogPosition)
    ensures
        r == adjusted_position(pos, is_unified),
{
    match (is_unified, pos) {
        (true, DialogPosition::TopRight) => DialogPosition::Custom(100, 3),
        (true, DialogPosition::TopLeft) => DialogPosition::Custom(0, 3),
        (true, DialogPosition::Custom(x, 0)) => DialogPosition::Custom(x, 3),
        _ => pos,
    }
}

} // verus!

verus! {

/// Which file attributes the information overlay and status line show, and how.
pub struct ShowInfoOptions {
    flags: [bool; 9],
    position: Option<DialogPosition>,
    status_bar: bool,
    format: Option<String>,
    date_format: String,
    segments: Vec<StatusSegment>,
}

/// The default date format of the information overlay.
pub open spec fn default_date_format() -> Seq<char> {
    "%Y-%m-%d %H:%M"@
}

/// The attribute shown when a flag is set, in the order of the flags.
pub const INFO_NAME: usize = 0;
/// The file type flag.
pub const INFO_FILE_TYPE: usize = 1;
/// The size flag.
pub const INFO_SIZE: usize = 2;
/// The modification time flag.
pub const INFO_MODIFIED: usize = 3;
/// The creation time flag.
pub const INFO_CREATED: usize = 4;
/// The access time flag.
pub const INFO_ACCESSED: usize = 5;
/// The permissions flag.
pub const INFO_PERMS: usize = 6;
/// The owner flag.
pub const INFO_OWNER: usize = 7;
/// The group flag.
pub const INFO_GROUP: usize = 8;

impl ShowInfoOptions {
    /// Which attributes are shown: name, file type, size, modified, created, accessed,
    /// permissions, owner, group.
    pub closed spec fn flags_view(&self) -> Seq<bool> {
        self.flags@
    }

    /// Where the overlay is placed, if configured.
    pub closed spec fn position_view(&self) -> Option<DialogPosition> {
        self.position
    }

    /// Whether the status line shows file information.
    pub closed spec fn status_bar_view(&self) -> bool {
        self.status_bar
    }

    /// The status line format, if any.
    pub closed spec fn format_view(&self) -> Option<Seq<char>> {
        match &self.format {
            Some(f) => Some(f@),
            None => None,
        }
    }

    /// The date format.
    pub closed spec fn date_format_view(&self) -> Seq<char> {
        self.date_format@
    }

    /// The pieces of the status line.
    pub closed spec fn segments_view(&self) -> Seq<SegmentView> {
        segment_views(self.segments@)
    }

    /// The options as read from the configuration file: the date format is checked (at most
    /// 64 bytes, else the default), and the status line format is split into its pieces.
    pub fn from_parts(
        flags: [bool; 9],
        position: Option<DialogPosition>,
        status_bar: bool,
        format: Option<String>,
        date_format: Option<String>,
    ) -> (r: Self)
        ensures
            r.flags_view() == flags@,
            r.position_view() == position,
            r.status_bar_view() == status_bar,
            r.format_view() == (match format {
                Some(f) => Some(f@),
                None => None,
            }),
            r.date_format_view() == valid_format(match date_format {
                Some(d) => Some(d@),
                None => None,
            }, default_date_format(), 64),
            r.segments_view() == (match format {
                Some(f) => segments_from(f@, 0),
                None => Seq::empty(),
            }),
    {
        let date = validate_strftime_format(date_format, "%Y-%m-%d %H:%M", 64);
        let segments = match &format {
            Some(f) => parse_status_format(f.as_str()),
            None => {
                let v: Vec<StatusSegment> = Vec::new();
                assert(segment_views(v@) =~= Seq::<SegmentView>::empty());
                v
            },
        };
        ShowInfoOptions { flags, position, status_bar, format, date_format: date, segments }
    }

    /// The defaults: name, size, times of change and creation, permissions, owner and group,
    /// the status line showing `{perms} | {size}`.
    pub fn new() -> (r: Self)
        ensures
            r.flags_view() == seq![true, false, true, true, true, false, true, true, true],
            r.position_view() is None,
            r.status_bar_view(),
            r.format_view() == Some("{perms} | {size}"@),
            r.date_format_view() == default_date_format(),
            r.segments_view() == segments_from("{perms} | {size}"@, 0),
    {
        let fmt = String::from_str("{perms} | {size}");
        let segments = parse_status_format(fmt.as_str());
        let flags = [true, false, true, true, true, false, true, true, true];
        assert(flags@ =~= seq![true, false, true, true, true, false, true, true, true]);
        ShowInfoOptions {
            flags,
            position: None,
            status_bar: true,
            format: Some(fmt),
            date_format: String::from_str("%Y-%m-%d %H:%M"),
            segments,
        }
    }

    /// Whether the attribute of flag `i` (see the `INFO_` constants) is shown.
    pub fn shows(&self, i: usize) -> (r: bool)
        requires
            i < 9,
        ensures
            r == self.flags_view()[i as int],
    {
        self.flags[i]
    }

    /// Where the overlay is placed, if configured.
    pub fn position(&self) -> (r: Option<DialogPosition>)
        ensures
            r == self.position_view(),
    {
        self.position
    }

    /// Whether the status line shows file information.
    pub fn status_bar(&self) -> (r: bool)
        ensures
            r == self.status_bar_view(),
    {
        self.status_bar
    }

    /// The status line format, if one is set.
    pub fn format(&self) -> (r: Option<&str>)
        ensures
            match r {
                Some(f) => self.format_view() == Some(f@),
                None => self.format_view() is None,
            },
    {
        match &self.format {
            Some(f) => Some(f.as_str()),
            None => None,
        }
    }

    /// Splits the status line format (if any) into its pieces again.
    pub fn init_status_format(&mut self)
        ensures
            final(self).format_view() == old(self).format_view(),
            final(self).date_format_view() == old(self).date_format_view(),
            final(self).flags_view() == old(self).flags_view(),
            final(self).segments_view() == (match old(self).format_view() {
                Some(f) => segments_from(f, 0),
                None => old(self).segments_view(),
            }),
    {
        match &self.format {
            Some(f) => {
                self.segments = parse_status_format(f.as_str());
            },
            None => {},
        }
    }

    /// The date format.
    pub fn date_format(&self) -> (r: &str)
        ensures
            r@ == self.date_format_view(),
    {
        self.date_format.as_str()
    }

    /// The pieces of the status line.
    pub fn segments(&self) -> (r: &[StatusSegment])
        ensures
            segment_views(r@) == self.segments_view(),
    {
        self.segments.as_slice()
    }
}

} // verus!
