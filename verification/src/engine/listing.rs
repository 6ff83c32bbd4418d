//! Which entries a listing shows and in what order: the listing options, hiding of hidden,
//! system and symlink entries (with a list of names always shown), and the name, natural and
//! extension orders, directories first where asked.

use crate::engine::fm::FileEntry;
use crate::engine::formatter::{
    lemma_natural_order_antisymmetric, lemma_natural_order_sign, natural_order, natural_sign_bytes, sign_of,
};
use crate::engine::sort::{SortConfig, SortMode, SortOrder};
use crate::utils::collections::TextSet;
use crate::utils::{chars_of, lowercase_text, string_of_range, text_eq, to_lowercase};
use vstd::prelude::*;
use vstd::string::StringSliceAdditionalSpecFns;
use vstd::utf8::encode_utf8;

verus! {

/// What a listing shows and how names compare.
#[derive(Debug, Clone, Copy, PartialEq, Eq, Structural)]
pub struct DirListOptions {
    pub dirs_first: bool,
    pub show_hidden: bool,
    pub show_symlink: bool,
    pub show_system: bool,
    pub case_insensitive: bool,
}

/// The views of a list of entries.
pub open spec fn entry_views(s: Seq<FileEntry>) -> Seq<(Seq<char>, Seq<char>, u8, Option<Seq<char>>)> {
    s.map_values(|e: FileEntry| e@)
}

/// Byte-wise lexicographic comparison of `a[i..]` and `b[i..]` (the order of `str` and
/// `OsStr`): the first differing byte decides, else the shorter is first.
pub open spec fn lex_from(a: Seq<u8>, b: Seq<u8>, i: int) -> int
    decreases a.len() - i,
{
    if i < 0 || i >= a.len() || i >= b.len() {
        sign_of(a.len() as int, b.len() as int)
    } else if a[i] != b[i] {
        sign_of(a[i] as int, b[i] as int)
    } else {
        lex_from(a, b, i + 1)
    }
}

/// Lexicographic comparison of two texts by their UTF-8 bytes.
pub open spec fn text_order(a: Seq<char>, b: Seq<char>) -> int {
    lex_from(encode_utf8(a), encode_utf8(b), 0)
}

/// Swapping the two sides flips the byte-wise order.
pub proof fn lemma_lex_antisymmetric(a: Seq<u8>, b: Seq<u8>, i: int)
    ensures
        lex_from(a, b, i) == -lex_from(b, a, i),
    decreases a.len() - i,
{
    if i < 0 || i >= a.len() || i >= b.len() {
    } else if a[i] != b[i] {
    } else {
        lemma_lex_antisymmetric(a, b, i + 1);
    }
}

/// Two names without digits are ordered naturally (without case folding) exactly as they are
/// byte by byte: the first differing byte decides, else the shorter name comes first.
pub proof fn lemma_natural_order_bytewise(a: Seq<u8>, b: Seq<u8>, i: int)
    requires
        0 <= i,
        forall|k: int| 0 <= k < a.len() ==> !crate::engine::formatter::digit_byte(#[trigger] a[k]),
        forall|k: int| 0 <= k < b.len() ==> !crate::engine::formatter::digit_byte(#[trigger] b[k]),
    ensures
        natural_order(a, b, i, i, false) == lex_from(a, b, i),
    decreases a.len() - i,
{
    if i < a.len() && i < b.len() {
        assert(!crate::engine::formatter::digit_byte(a[i]));
        if a[i] == b[i] {
            lemma_natural_order_bytewise(a, b, i + 1);
        }
    }
}

/// Two names whose extensions are the same (up to case, where case is ignored) are ordered by
/// extension exactly as they are ordered by name: by their names (lowercased where case is
/// ignored), byte by byte, in ascending order.
pub proof fn lemma_extension_ties_by_name(ci: bool, a: (Seq<char>, Seq<char>, u8, Option<Seq<char>>), b: (Seq<char>, Seq<char>, u8, Option<Seq<char>>))
    requires
        ci ==> lowercase_text(extension_text(a.0)) == lowercase_text(extension_text(b.0)),
        !ci ==> extension_of(a.0) == extension_of(b.0),
    ensures
        base_order(EntryOrder::Extension, ci, a, b) == base_order(EntryOrder::Name, ci, a, b),
        base_order(EntryOrder::Extension, ci, a, b) == (if ci { text_order(a.1, b.1) } else { text_order(a.0, b.0) }),
{
    if ci {
        let x = encode_utf8(lowercase_text(extension_text(a.0)));
        lemma_lex_antisymmetric(x, x, 0);
    } else {
        match extension_of(a.0) {
            Some(e) => lemma_lex_antisymmetric(encode_utf8(e), encode_utf8(e), 0),
            None => {},
        }
    }
}

/// The index of the last `.` in `s[..i]`, or -1.
pub open spec fn last_dot(s: Seq<char>, i: int) -> int
    decreases i,
{
    if i <= 0 || i > s.len() {
        -1
    } else if s[i - 1] == '.' {
        i - 1
    } else {
        last_dot(s, i - 1)
    }
}

/// The extension of a file name (`Path::extension`): the text after the last `.`, unless the
/// name has no `.` but a leading one (or none at all), or is `..`.
pub open spec fn extension_of(name: Seq<char>) -> Option<Seq<char>> {
    let d = last_dot(name, name.len() as int);
    if name == seq!['.', '.'] || d <= 0 {
        None
    } else {
        Some(name.subrange(d + 1, name.len() as int))
    }
}

/// The extension as text, empty where there is none.
pub open spec fn extension_text(name: Seq<char>) -> Seq<char> {
    match extension_of(name) {
        Some(e) => e,
        None => Seq::empty(),
    }
}

/// The order of two optional extensions (`Option<&OsStr>`): none first, then by bytes.
pub open spec fn option_order(a: Option<Seq<char>>, b: Option<Seq<char>>) -> int {
    match (a, b) {
        (None, None) => 0,
        (None, Some(_)) => -1,
        (Some(_), None) => 1,
        (Some(x), Some(y)) => text_order(x, y),
    }
}

/// Which comparison a sort uses.
#[derive(Debug, Clone, Copy, PartialEq, Eq, Structural)]
pub enum EntryOrder {
    Name,
    Natural,
    Extension,
}

/// The rank of an entry: directories come first (0) when asked, everything else after (1).
pub open spec fn priority(dirs_first: bool, e: (Seq<char>, Seq<char>, u8, Option<Seq<char>>)) -> int {
    if dirs_first && (e.2 & 1u8) != 0u8 {
        0
    } else {
        1
    }
}

/// The comparison of two entries of the same rank, before the direction is applied: by name
/// (lowercase name when case-insensitive), by natural order of the lowercase names, or by
/// extension and then name.
pub open spec fn base_order(kind: EntryOrder, ci: bool, a: (Seq<char>, Seq<char>, u8, Option<Seq<char>>), b: (Seq<char>, Seq<char>, u8, Option<Seq<char>>)) -> int {
    let by_name = if ci { text_order(a.1, b.1) } else { text_order(a.0, b.0) };
    match kind {
        EntryOrder::Name => by_name,
        EntryOrder::Natural => natural_order(encode_utf8(a.1), encode_utf8(b.1), 0, 0, ci),
        EntryOrder::Extension => {
            let e = if ci {
                text_order(lowercase_text(extension_text(a.0)), lowercase_text(extension_text(b.0)))
            } else {
                option_order(extension_of(a.0), extension_of(b.0))
            };
            if e != 0 {
                e
            } else {
                by_name
            }
        },
    }
}

/// The full comparison of two entries: rank first, then the base order in the sort's direction.
pub open spec fn entry_order(kind: EntryOrder, list: DirListOptions, ascending: bool, a: (Seq<char>, Seq<char>, u8, Option<Seq<char>>), b: (Seq<char>, Seq<char>, u8, Option<Seq<char>>)) -> int {
    let pa = priority(list.dirs_first, a);
    let pb = priority(list.dirs_first, b);
    if pa != pb {
        sign_of(pa, pb)
    } else if ascending {
        base_order(kind, list.case_insensitive, a, b)
    } else {
        sign_of(0, base_order(kind, list.case_insensitive, a, b))
    }
}

/// Every entry is ordered no later than the next one.
pub open spec fn ordered(kind: EntryOrder, list: DirListOptions, ascending: bool, s: Seq<(Seq<char>, Seq<char>, u8, Option<Seq<char>>)>) -> bool {
    forall|i: int| 0 <= i < s.len() - 1 ==> entry_order(kind, list, ascending, #[trigger] s[i], s[i + 1]) <= 0
}

/// Swapping the two entries flips their order.
pub proof fn lemma_entry_order_antisymmetric(kind: EntryOrder, list: DirListOptions, ascending: bool, a: (Seq<char>, Seq<char>, u8, Option<Seq<char>>), b: (Seq<char>, Seq<char>, u8, Option<Seq<char>>))
    ensures
        entry_order(kind, list, ascending, a, b) == -entry_order(kind, list, ascending, b, a),
{
    lemma_lex_antisymmetric(encode_utf8(a.0), encode_utf8(b.0), 0);
    lemma_lex_antisymmetric(encode_utf8(a.1), encode_utf8(b.1), 0);
    lemma_natural_order_antisymmetric(encode_utf8(a.1), encode_utf8(b.1), 0, 0, list.case_insensitive);
    lemma_lex_antisymmetric(
        encode_utf8(lowercase_text(extension_text(a.0))),
        encode_utf8(lowercase_text(extension_text(b.0))),
        0,
    );
    match (extension_of(a.0), extension_of(b.0)) {
        (Some(x), Some(y)) => lemma_lex_antisymmetric(encode_utf8(x), encode_utf8(y), 0),
        _ => {},
    }
}

/// With directories first, a directory comes before any other entry in either direction;
/// between two entries of one kind (or when directories are not put first), the descending
/// order is the ascending order reversed.
pub proof fn lemma_entry_order_dirs_and_direction(kind: EntryOrder, list: DirListOptions, a: (Seq<char>, Seq<char>, u8, Option<Seq<char>>), b: (Seq<char>, Seq<char>, u8, Option<Seq<char>>))
    ensures
        list.dirs_first && (a.2 & 1u8) != 0u8 && (b.2 & 1u8) == 0u8 ==> entry_order(kind, list, true, a, b) == -1
            && entry_order(kind, list, false, a, b) == -1,
        !list.dirs_first || ((a.2 & 1u8) != 0u8) == ((b.2 & 1u8) != 0u8) ==> entry_order(kind, list, false, a, b)
            == -entry_order(kind, list, true, a, b),
{
    lemma_lex_sign(encode_utf8(a.0), encode_utf8(b.0), 0);
    lemma_lex_sign(encode_utf8(a.1), encode_utf8(b.1), 0);
    lemma_natural_order_sign(encode_utf8(a.1), encode_utf8(b.1), 0, 0, list.case_insensitive);
    lemma_lex_sign(
        encode_utf8(lowercase_text(extension_text(a.0))),
        encode_utf8(lowercase_text(extension_text(b.0))),
        0,
    );
    match (extension_of(a.0), extension_of(b.0)) {
        (Some(x), Some(y)) => lemma_lex_sign(encode_utf8(x), encode_utf8(y), 0),
        _ => {},
    }
}

/// The byte-wise order is a sign: -1, 0 or 1.
proof fn lemma_lex_sign(a: Seq<u8>, b: Seq<u8>, i: int)
    ensures
        -1 <= lex_from(a, b, i) <= 1,
    decreases a.len() - i,
{
    if 0 <= i < a.len() && i < b.len() && a[i] == b[i] {
        lemma_lex_sign(a, b, i + 1);
    }
}

/// Byte-wise lexicographic comparison of two byte strings as a sign.
pub fn byte_order(a: &[u8], b: &[u8]) -> (r: i8)
    ensures
        r as int == lex_from(a@, b@, 0),
{
    let mut i: usize = 0;
    while i < a.len() && i < b.len()
        invariant
            i <= a@.len(),
            i <= b@.len(),
            lex_from(a@, b@, 0) == lex_from(a@, b@, i as int),
        decreases a@.len() - i,
    {
        if a[i] != b[i] {
            return if a[i] < b[i] { -1 } else { 1 };
        }
        i += 1;
    }
    if a.len() < b.len() {
        -1
    } else if a.len() == b.len() {
        0
    } else {
        1
    }
}

/// Lexicographic comparison of two texts as a sign.
pub fn text_order_exec(a: &str, b: &str) -> (r: i8)
    ensures
        r as int == text_order(a@, b@),
{
    byte_order(a.as_bytes(), b.as_bytes())
}

/// The index of the last `.` in `s[..i]`.
fn last_dot_exec(s: &Vec<char>) -> (r: Option<usize>)
    ensures
        match r {
            Some(d) => d as int == last_dot(s@, s@.len() as int) && d < s@.len(),
            None => last_dot(s@, s@.len() as int) == -1,
        },
{
    let mut i: usize = s.len();
    while i > 0
        invariant
            i <= s@.len(),
            last_dot(s@, s@.len() as int) == last_dot(s@, i as int),
        decreases i,
    {
        if s[i - 1] == '.' {
            return Some(i - 1);
        }
        i -= 1;
    }
    None
}

/// The extension of a file name (see `extension_of`).
pub fn extension(name: &str) -> (r: Option<String>)
    ensures
        match r {
            Some(e) => extension_of(name@) == Some(e@),
            None => extension_of(name@) is None,
        },
{
    let cs = chars_of(name);
    proof {
        reveal_strlit("..");
        assert(".."@ =~= seq!['.', '.']);
    }
    if text_eq(name, "..") {
        return None;
    }
    match last_dot_exec(&cs) {
        Some(d) => {
            assert(cs@.len() == cs.len());
            if d == 0 {
                None
            } else {
                Some(string_of_range(cs.as_slice(), d + 1, cs.len()))
            }
        },
        None => None,
    }
}

/// The comparison of two entries (see `entry_order`) as a sign.
pub fn compare_entries(kind: EntryOrder, list: DirListOptions, ascending: bool, a: &FileEntry, b: &FileEntry) -> (r: i8)
    ensures
        r as int == entry_order(kind, list, ascending, a@, b@),
{
    let pa: u8 = if list.dirs_first && a.is_dir() { 0 } else { 1 };
    let pb: u8 = if list.dirs_first && b.is_dir() { 0 } else { 1 };
    if pa != pb {
        return if pa < pb { -1 } else { 1 };
    }
    let by_name = if list.case_insensitive {
        text_order_exec(a.lowered(), b.lowered())
    } else {
        text_order_exec(a.name(), b.name())
    };
    let base: i8 = match kind {
        EntryOrder::Name => {
            assert(by_name as int == (if list.case_insensitive { text_order(a@.1, b@.1) } else { text_order(a@.0, b@.0) }));
            by_name
        },
        EntryOrder::Natural => {
            let n = natural_sign_bytes(a.lowered().as_bytes(), b.lowered().as_bytes(), list.case_insensitive);
            assert(n as int == natural_order(encode_utf8(a@.1), encode_utf8(b@.1), 0, 0, list.case_insensitive));
            n
        },
        EntryOrder::Extension => {
            let ea = extension(a.name());
            let eb = extension(b.name());
            let e: i8 = if list.case_insensitive {
                let ta = match &ea {
                    Some(x) => to_lowercase(x.as_str()),
                    None => to_lowercase(""),
                };
                let tb = match &eb {
                    Some(x) => to_lowercase(x.as_str()),
                    None => to_lowercase(""),
                };
                proof {
                    reveal_strlit("");
                    assert(""@ =~= Seq::<char>::empty());
                }
                assert(ta@ == lowercase_text(extension_text(a@.0)));
                assert(tb@ == lowercase_text(extension_text(b@.0)));
                text_order_exec(ta.as_str(), tb.as_str())
            } else {
                match (&ea, &eb) {
                    (None, None) => 0,
                    (None, Some(_)) => -1,
                    (Some(_), None) => 1,
                    (Some(x), Some(y)) => text_order_exec(x.as_str(), y.as_str()),
                }
            };
            assert(e as int == (if list.case_insensitive {
                text_order(lowercase_text(extension_text(a@.0)), lowercase_text(extension_text(b@.0)))
            } else {
                option_order(extension_of(a@.0), extension_of(b@.0))
            }));
            if e != 0 {
                e
            } else {
                by_name
            }
        },
    };
    assert(base as int == base_order(kind, list.case_insensitive, a@, b@));
    if ascending {
        base
    } else if base < 0 {
        1
    } else if base == 0 {
        0
    } else {
        -1
    }
}

/// Sorts `entries` by `entry_order`: the result holds the same entries, each ordered no later
/// than the next.
pub fn sort_entries_by(kind: EntryOrder, list: DirListOptions, ascending: bool, entries: &mut Vec<FileEntry>)
    ensures
        entry_views(final(entries)@).to_multiset() == entry_views(old(entries)@).to_multiset(),
        ordered(kind, list, ascending, entry_views(final(entries)@)),
{
    let mut sorted: Vec<FileEntry> = Vec::new();
    let mut i: usize = 0;
    assert(entry_views(sorted@) =~= entry_views(entries@.subrange(0, 0)));
    while i < entries.len()
        invariant
            i <= entries@.len(),
            entry_views(sorted@).to_multiset() == entry_views(entries@.subrange(0, i as int)).to_multiset(),
            ordered(kind, list, ascending, entry_views(sorted@)),
        decreases entries@.len() - i,
    {
        let x = entries[i].duplicate();
        let mut p: usize = sorted.len();
        while p > 0 && compare_entries(kind, list, ascending, &sorted[p - 1], &x) > 0
            invariant
                p <= sorted@.len(),
                forall|q: int| p <= q < sorted@.len() ==> entry_order(kind, list, ascending, #[trigger] sorted@[q]@, x@) > 0,
            decreases p,
        {
            p -= 1;
        }
        let ghost before = entry_views(sorted@);
        sorted.insert(p, x);
        proof {
            assert(entry_views(sorted@) == before.insert(p as int, x@));
            lemma_insert_multiset(before, p as int, x@);
            assert(entry_views(entries@.subrange(0, i + 1)) == entry_views(entries@.subrange(0, i as int)).push(x@));
            entry_views(entries@.subrange(0, i as int)).to_multiset_ensures();
            let s = entry_views(sorted@);
            assert forall|k: int| 0 <= k < s.len() - 1 implies entry_order(kind, list, ascending, #[trigger] s[k], s[k + 1]) <= 0 by {
                if k + 1 < p {
                    assert(s[k] == before[k] && s[k + 1] == before[k + 1]);
                } else if k + 1 == p {
                    assert(s[k] == before[k] && s[k + 1] == x@);
                } else if k == p {
                    assert(s[k] == x@ && s[k + 1] == before[k]);
                    assert(entry_order(kind, list, ascending, sorted@[k + 1]@, x@) > 0);
                    lemma_entry_order_antisymmetric(kind, list, ascending, x@, before[k]);
                } else {
                    assert(s[k] == before[k - 1] && s[k + 1] == before[k]);
                }
            }
        }
        i += 1;
    }
    assert(entries@.subrange(0, entries@.len() as int) == entries@);
    *entries = sorted;
}

/// Inserting into a sequence adds the element to its multiset.
pub(crate) proof fn lemma_insert_multiset<A>(s: Seq<A>, pos: int, x: A)
    requires
        0 <= pos <= s.len(),
    ensures
        s.insert(pos, x).to_multiset() == s.to_multiset().insert(x),
{
    let s2 = s.insert(pos, x);
    s.insert_ensures(pos, x);
    assert(s2.remove(pos) =~= s);
    s2.to_multiset_ensures();
    assert(s2[pos] == x);
    assert(s2.contains(x));
    assert(s2.to_multiset().count(x) > 0);
    assert(s2.to_multiset() =~= s2.to_multiset().remove(x).insert(x));
}


/// The entries of `s` that `keep` keeps, in order.
pub open spec fn retained(s: Seq<(Seq<char>, Seq<char>, u8, Option<Seq<char>>)>, keep: spec_fn((Seq<char>, Seq<char>, u8, Option<Seq<char>>)) -> bool) -> Seq<(Seq<char>, Seq<char>, u8, Option<Seq<char>>)>
    decreases s.len(),
{
    if s.len() == 0 {
        Seq::empty()
    } else if keep(s.last()) {
        retained(s.drop_last(), keep).push(s.last())
    } else {
        retained(s.drop_last(), keep)
    }
}

/// The attribute bits hide the entry under these options: it is hidden, a system file or a
/// symlink, and such entries are not shown.
pub open spec fn hidden_by(list: DirListOptions, flags: u8) -> bool {
    ||| (!list.show_hidden && (flags & 2u8) != 0u8)
    ||| (!list.show_system && (flags & 4u8) != 0u8)
    ||| (!list.show_symlink && (flags & 8u8) != 0u8)
}

/// Lists entries: which are shown and in what order.
pub struct Formatter {
    list: DirListOptions,
    sort_config: SortConfig,
    always_show: Option<TextSet>,
    always_show_lowercase: Option<TextSet>,
}

impl Formatter {
    /// The listing options.
    pub closed spec fn list_view(&self) -> DirListOptions {
        self.list
    }

    /// The sort configuration.
    pub closed spec fn sort_view(&self) -> SortConfig {
        self.sort_config
    }

    /// The names always shown, if any are.
    pub closed spec fn always_view(&self) -> Option<Set<Seq<char>>> {
        match &self.always_show {
            Some(t) => Some(t@),
            None => None,
        }
    }

    /// The lowercase forms of the names always shown, kept for case-insensitive listings.
    pub closed spec fn always_lower_view(&self) -> Option<Set<Seq<char>>> {
        match &self.always_show_lowercase {
            Some(t) => Some(t@),
            None => None,
        }
    }

    /// The name sets are well formed.
    pub closed spec fn wf(&self) -> bool {
        &&& (self.always_show matches Some(t) ==> t.wf())
        &&& (self.always_show_lowercase matches Some(t) ==> t.wf())
    }

    /// Whether an entry is shown: it is not hidden by the options, or its name (its lowercase
    /// name when case-insensitive) is among the names always shown.
    pub open spec fn keeps(&self, e: (Seq<char>, Seq<char>, u8, Option<Seq<char>>)) -> bool {
        if !hidden_by(self.list_view(), e.2) {
            true
        } else if self.list_view().case_insensitive {
            self.always_lower_view() matches Some(set) && set.contains(e.1)
        } else {
            self.always_view() matches Some(set) && set.contains(e.0)
        }
    }

    /// A formatter for the given options and sort; the names always shown are kept only when
    /// there are some, and their lowercase forms too when the listing is case-insensitive.
    pub fn new(list: DirListOptions, sort_config: SortConfig, always_show: TextSet) -> (r: Self)
        requires
            always_show.wf(),
        ensures
            r.wf(),
            r.list_view() == list,
            r.sort_view() == sort_config,
            always_show@.len() == 0 ==> r.always_view() is None && r.always_lower_view() is None,
            always_show@.len() != 0 ==> r.always_view() == Some(always_show@),
            always_show@.len() != 0 && list.case_insensitive ==> r.always_lower_view() == Some(always_show@.map(|t: Seq<char>| lowercase_text(t))),
            always_show@.len() != 0 && !list.case_insensitive ==> r.always_lower_view() is None,
    {
        if always_show.is_empty() {
            Formatter { list, sort_config, always_show: None, always_show_lowercase: None }
        } else if list.case_insensitive {
            let items = always_show.to_vec();
            let ghost ts = crate::utils::collections::texts(items@);
            let mut lower = TextSet::new();
            let mut i: usize = 0;
            while i < items.len()
                invariant
                    i <= items@.len(),
                    ts == crate::utils::collections::texts(items@),
                    ts.len() == items@.len(),
                    lower.wf(),
                    forall|y: Seq<char>| #[trigger] lower@.contains(y) <==> exists|j: int| 0 <= j < i && lowercase_text(ts[j]) == y,
                decreases items@.len() - i,
            {
                let low = to_lowercase(items[i].as_str());
                assert(ts[i as int] == items@[i as int]@);
                lower.insert(low);
                proof {
                    assert forall|y: Seq<char>| #[trigger] lower@.contains(y) <==> exists|j: int| 0 <= j < i + 1 && lowercase_text(ts[j]) == y by {
                        if exists|j: int| 0 <= j < i + 1 && lowercase_text(ts[j]) == y {
                            let j = choose|j: int| 0 <= j < i + 1 && lowercase_text(ts[j]) == y;
                            if j < i {
                                assert(exists|j2: int| 0 <= j2 < i && lowercase_text(ts[j2]) == y);
                            }
                        }
                    }
                }
                i += 1;
            }
            proof {
                let m = always_show@.map(|t: Seq<char>| lowercase_text(t));
                assert forall|y: Seq<char>| lower@.contains(y) <==> m.contains(y) by {
                    if lower@.contains(y) {
                        let j = choose|j: int| 0 <= j < items@.len() && lowercase_text(ts[j]) == y;
                        assert(ts.contains(ts[j]));
                        assert(always_show@.contains(ts[j]));
                    }
                    if m.contains(y) {
                        let x = choose|x: Seq<char>| always_show@.contains(x) && lowercase_text(x) == y;
                        assert(ts.to_set().contains(x));
                        let j = choose|j: int| 0 <= j < ts.len() && ts[j] == x;
                        assert(lowercase_text(ts[j]) == y);
                    }
                }
                assert(lower@ =~= m);
            }
            Formatter { list, sort_config, always_show: Some(always_show), always_show_lowercase: Some(lower) }
        } else {
            Formatter { list, sort_config, always_show: Some(always_show), always_show_lowercase: None }
        }
    }

    /// Whether an entry is shown (see `keeps`).
    fn keeps_exec(&self, e: &FileEntry) -> (r: bool)
        ensures
            r == self.keeps(e@),
    {
        let hidden = (!self.list.show_hidden && e.is_hidden()) || (!self.list.show_system && e.is_system())
            || (!self.list.show_symlink && e.is_symlink());
        if !hidden {
            true
        } else if self.list.case_insensitive {
            match &self.always_show_lowercase {
                Some(set) => set.contains(e.lowered()),
                None => false,
            }
        } else {
            match &self.always_show {
                Some(set) => set.contains(e.name()),
                None => false,
            }
        }
    }

    /// Drops the entries that are not shown, keeping the order of the others.
    pub fn filter_entries(&self, entries: &mut Vec<FileEntry>)
        ensures
            entry_views(final(entries)@) == retained(entry_views(old(entries)@), |e: (Seq<char>, Seq<char>, u8, Option<Seq<char>>)| self.keeps(e)),
    {
        let ghost keep = |e: (Seq<char>, Seq<char>, u8, Option<Seq<char>>)| self.keeps(e);
        let mut out: Vec<FileEntry> = Vec::new();
        let mut i: usize = 0;
        assert(entry_views(out@) =~= retained(entry_views(entries@.subrange(0, 0)), keep));
        while i < entries.len()
            invariant
                i <= entries@.len(),
                keep == (|e: (Seq<char>, Seq<char>, u8, Option<Seq<char>>)| self.keeps(e)),
                entry_views(out@) == retained(entry_views(entries@.subrange(0, i as int)), keep),
            decreases entries@.len() - i,
        {
            let ghost pre = entry_views(entries@.subrange(0, i as int));
            assert(entry_views(entries@.subrange(0, i + 1)) == pre.push(entries@[i as int]@));
            assert(entry_views(entries@.subrange(0, i + 1)).drop_last() == pre);
            if self.keeps_exec(&entries[i]) {
                out.push(entries[i].duplicate());
                assert(entry_views(out@) == entry_views(out@.drop_last()).push(out@.last()@));
            }
            i += 1;
        }
        assert(entries@.subrange(0, entries@.len() as int) == entries@);
        *entries = out;
    }

    /// The comparison that a listing sort uses, where it compares names only.
    pub open spec fn name_kind(mode: SortMode) -> Option<EntryOrder> {
        match mode {
            SortMode::Name => Some(EntryOrder::Name),
            SortMode::Natural => Some(EntryOrder::Natural),
            SortMode::Extension => Some(EntryOrder::Extension),
            _ => None,
        }
    }

    /// Sorts by name (see `EntryOrder::Name`), directories first where asked.
    pub fn sort_by_name(&self, entries: &mut Vec<FileEntry>)
        ensures
            entry_views(final(entries)@).to_multiset() == entry_views(old(entries)@).to_multiset(),
            ordered(EntryOrder::Name, self.list_view(), self.sort_view().order_view() == SortOrder::Ascending, entry_views(final(entries)@)),
    {
        let asc = self.sort_config.order() == SortOrder::Ascending;
        sort_entries_by(EntryOrder::Name, self.list, asc, entries);
    }

    /// Sorts in natural order of the lowercase names, directories first where asked.
    pub fn sort_by_natural(&self, entries: &mut Vec<FileEntry>)
        ensures
            entry_views(final(entries)@).to_multiset() == entry_views(old(entries)@).to_multiset(),
            ordered(EntryOrder::Natural, self.list_view(), self.sort_view().order_view() == SortOrder::Ascending, entry_views(final(entries)@)),
    {
        let asc = self.sort_config.order() == SortOrder::Ascending;
        sort_entries_by(EntryOrder::Natural, self.list, asc, entries);
    }

    /// Sorts by extension, then name, directories first where asked.
    pub fn sort_by_extension(&self, entries: &mut Vec<FileEntry>)
        ensures
            entry_views(final(entries)@).to_multiset() == entry_views(old(entries)@).to_multiset(),
            ordered(EntryOrder::Extension, self.list_view(), self.sort_view().order_view() == SortOrder::Ascending, entry_views(final(entries)@)),
    {
        let asc = self.sort_config.order() == SortOrder::Ascending;
        sort_entries_by(EntryOrder::Extension, self.list, asc, entries);
    }

    /// Sorts by the configured key where it is a name order (name, natural, extension) and
    /// returns `true`; the keys read from file metadata are sorted by `sort_by_keys`, and there
    /// the entries are left as they are and `false` is returned.
    pub fn sort_entries(&self, entries: &mut Vec<FileEntry>) -> (r: bool)
        ensures
            r == (Self::name_kind(self.sort_view().mode_view()) is Some),
            r ==> entry_views(final(entries)@).to_multiset() == entry_views(old(entries)@).to_multiset(),
            r ==> ordered(Self::name_kind(self.sort_view().mode_view())->0, self.list_view(), self.sort_view().order_view() == SortOrder::Ascending, entry_views(final(entries)@)),
            !r ==> final(entries)@ == old(entries)@,
    {
        match self.sort_config.mode() {
            SortMode::Name => {
                self.sort_by_name(entries);
                true
            },
            SortMode::Natural => {
                self.sort_by_natural(entries);
                true
            },
            SortMode::Extension => {
                self.sort_by_extension(entries);
                true
            },
            _ => false,
        }
    }
}


/// The view of an entry with its metadata sort key and the text shown for that key.
pub open spec fn keyed_views(es: Seq<FileEntry>, keys: Seq<u128>, column: Seq<String>) -> Seq<((Seq<char>, Seq<char>, u8, Option<Seq<char>>), u128, Seq<char>)>
    recommends
        es.len() == keys.len() == column.len(),
{
    Seq::new(es.len(), |i: int| (es[i]@, keys[i], column[i]@))
}

/// The comparison of two entries by a metadata key (size or a time): rank first, then the key
/// in the sort's direction, then the name (lowercase when case-insensitive) ascending.
pub open spec fn keyed_order(list: DirListOptions, ascending: bool, a: ((Seq<char>, Seq<char>, u8, Option<Seq<char>>), u128, Seq<char>), b: ((Seq<char>, Seq<char>, u8, Option<Seq<char>>), u128, Seq<char>)) -> int {
    let pa = priority(list.dirs_first, a.0);
    let pb = priority(list.dirs_first, b.0);
    let k = if ascending { sign_of(a.1 as int, b.1 as int) } else { sign_of(b.1 as int, a.1 as int) };
    if pa != pb {
        sign_of(pa, pb)
    } else if k != 0 {
        k
    } else if list.case_insensitive {
        text_order(a.0.1, b.0.1)
    } else {
        text_order(a.0.0, b.0.0)
    }
}

/// Every keyed entry is ordered no later than the next one.
pub open spec fn keyed_ordered(list: DirListOptions, ascending: bool, s: Seq<((Seq<char>, Seq<char>, u8, Option<Seq<char>>), u128, Seq<char>)>) -> bool {
    forall|i: int| 0 <= i < s.len() - 1 ==> keyed_order(list, ascending, #[trigger] s[i], s[i + 1]) <= 0
}

/// Swapping two keyed entries flips their order.
pub proof fn lemma_keyed_order_antisymmetric(list: DirListOptions, ascending: bool, a: ((Seq<char>, Seq<char>, u8, Option<Seq<char>>), u128, Seq<char>), b: ((Seq<char>, Seq<char>, u8, Option<Seq<char>>), u128, Seq<char>))
    ensures
        keyed_order(list, ascending, a, b) == -keyed_order(list, ascending, b, a),
{
    lemma_lex_antisymmetric(encode_utf8(a.0.0), encode_utf8(b.0.0), 0);
    lemma_lex_antisymmetric(encode_utf8(a.0.1), encode_utf8(b.0.1), 0);
}

/// Between two entries of one rank, a smaller key comes first in ascending order and last in
/// descending order; equal keys are ordered by name (lowercase when case-insensitive),
/// ascending in both directions.
pub proof fn lemma_keyed_order_by_key(list: DirListOptions, a: ((Seq<char>, Seq<char>, u8, Option<Seq<char>>), u128, Seq<char>), b: ((Seq<char>, Seq<char>, u8, Option<Seq<char>>), u128, Seq<char>))
    requires
        !list.dirs_first || ((a.0.2 & 1u8) != 0u8) == ((b.0.2 & 1u8) != 0u8),
    ensures
        a.1 < b.1 ==> keyed_order(list, true, a, b) == -1 && keyed_order(list, false, a, b) == 1,
        a.1 == b.1 ==> keyed_order(list, true, a, b) == keyed_order(list, false, a, b)
            && keyed_order(list, true, a, b) == (if list.case_insensitive {
            text_order(a.0.1, b.0.1)
        } else {
            text_order(a.0.0, b.0.0)
        }),
{
}

impl Formatter {
    /// Sorts entries by a metadata key read for each of them (`keys[i]` for `entries[i]`, with
    /// `column[i]` the text shown for it): see `keyed_order`. The entries and their texts move
    /// together; the texts come back in the new order.
    pub fn sort_by_keys(&self, entries: &mut Vec<FileEntry>, keys: Vec<u128>, column: Vec<String>) -> (r: Vec<String>)
        requires
            old(entries)@.len() == keys@.len(),
            keys@.len() == column@.len(),
        ensures
            final(entries)@.len() == r@.len() == old(entries)@.len(),
            exists|ks: Seq<u128>|
                #![trigger keyed_views(final(entries)@, ks, r@)]
                ks.len() == r@.len()
                && keyed_views(final(entries)@, ks, r@).to_multiset() == keyed_views(old(entries)@, keys@, column@).to_multiset()
                && keyed_ordered(self.list_view(), self.sort_view().order_view() == SortOrder::Ascending, keyed_views(final(entries)@, ks, r@)),
    {
        let asc = self.sort_config.order() == SortOrder::Ascending;
        let list = self.list;
        let ghost start = keyed_views(entries@, keys@, column@);
        let mut se: Vec<FileEntry> = Vec::new();
        let mut sk: Vec<u128> = Vec::new();
        let mut sc: Vec<String> = Vec::new();
        let mut i: usize = 0;
        assert(keyed_views(se@, sk@, sc@) =~= start.subrange(0, 0));
        while i < entries.len()
            invariant
                i <= entries@.len(),
                entries@.len() == keys@.len(),
                keys@.len() == column@.len(),
                start == keyed_views(entries@, keys@, column@),
                se@.len() == sk@.len() == sc@.len(),
                se@.len() == i,
                list == self.list_view(),
                keyed_views(se@, sk@, sc@).to_multiset() == start.subrange(0, i as int).to_multiset(),
                keyed_ordered(list, asc, keyed_views(se@, sk@, sc@)),
            decreases entries@.len() - i,
        {
            let x = entries[i].duplicate();
            let xk = keys[i];
            let xc = column[i].clone();
            let ghost xv = (x@, xk, xc@);
            assert(xv == start[i as int]);
            let mut p: usize = se.len();
            while p > 0 && self.keyed_sign(asc, &se[p - 1], sk[p - 1], &x, xk) > 0
                invariant
                    p <= se@.len(),
                    se@.len() == sk@.len() == sc@.len(),
                    list == self.list_view(),
                    xv == (x@, xk, xc@),
                    forall|q: int| p <= q < se@.len() ==> keyed_order(list, asc, #[trigger] keyed_views(se@, sk@, sc@)[q], xv) > 0,
                decreases p,
            {
                assert(keyed_views(se@, sk@, sc@)[p - 1] == (se@[p - 1]@, sk@[p - 1], sc@[p - 1]@));
                p -= 1;
            }
            let ghost before = keyed_views(se@, sk@, sc@);
            se.insert(p, x);
            sk.insert(p, xk);
            sc.insert(p, xc);
            proof {
                assert(keyed_views(se@, sk@, sc@) =~= before.insert(p as int, xv));
                assert(keyed_views(se@, sk@, sc@) == before.insert(p as int, xv));
                before.insert_ensures(p as int, xv);
                lemma_insert_multiset(before, p as int, xv);
                assert(start.subrange(0, i + 1) == start.subrange(0, i as int).push(xv));
                start.subrange(0, i as int).to_multiset_ensures();
                let s = keyed_views(se@, sk@, sc@);
                assert forall|k: int| 0 <= k < s.len() - 1 implies keyed_order(list, asc, #[trigger] s[k], s[k + 1]) <= 0 by {
                    if k + 1 < p {
                        assert(s[k] == before[k] && s[k + 1] == before[k + 1]);
                    } else if k + 1 == p {
                        assert(s[k] == before[k] && s[k + 1] == xv);
                    } else if k == p {
                        assert(s[k] == xv && s[k + 1] == before[k]);
                        lemma_keyed_order_antisymmetric(list, asc, xv, before[k]);
                    } else {
                        assert(s[k] == before[k - 1] && s[k + 1] == before[k]);
                    }
                }
            }
            i += 1;
        }
        assert(start.subrange(0, start.len() as int) == start);
        *entries = se;
        assert(sk@.len() == sc@.len());
        sc
    }

    /// The comparison of two keyed entries (see `keyed_order`) as a sign.
    fn keyed_sign(&self, asc: bool, a: &FileEntry, ka: u128, b: &FileEntry, kb: u128) -> (r: i8)
        ensures
            r as int == keyed_order(self.list_view(), asc, (a@, ka, Seq::empty()), (b@, kb, Seq::empty())),
            forall|ca: Seq<char>, cb: Seq<char>| r as int == keyed_order(self.list_view(), asc, (a@, ka, ca), (b@, kb, cb)),
    {
        let pa: u8 = if self.list.dirs_first && a.is_dir() { 0 } else { 1 };
        let pb: u8 = if self.list.dirs_first && b.is_dir() { 0 } else { 1 };
        if pa != pb {
            return if pa < pb { -1 } else { 1 };
        }
        let k: i8 = if asc {
            if ka < kb { -1 } else if ka == kb { 0 } else { 1 }
        } else {
            if kb < ka { -1 } else if kb == ka { 0 } else { 1 }
        };
        if k != 0 {
            k
        } else if self.list.case_insensitive {
            text_order_exec(a.lowered(), b.lowered())
        } else {
            text_order_exec(a.name(), b.name())
        }
    }
}

} // verus!

verus! {

/// An extension is the end of its name, after a dot.
pub proof fn lemma_extension_len(name: Seq<char>)
    ensures
        extension_of(name) matches Some(e) ==> e.len() + 1 <= name.len() && name.subrange(name.len() - e.len(), name.len() as int) == e
            && name[name.len() - e.len() - 1] == '.',
{
    let d = last_dot(name, name.len() as int);
    lemma_last_dot_bounds(name, name.len() as int);
}

/// The last dot before `i` lies before `i`.
proof fn lemma_last_dot_bounds(s: Seq<char>, i: int)
    ensures
        last_dot(s, i) == -1 || (0 <= last_dot(s, i) < i && last_dot(s, i) < s.len() && s[last_dot(s, i)] == '.'),
    decreases i,
{
    if i <= 0 || i > s.len() {
    } else if s[i - 1] == '.' {
    } else {
        lemma_last_dot_bounds(s, i - 1);
    }
}

} // verus!
