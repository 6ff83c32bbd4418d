//! Text and character helpers shared by the rest of the crate.

pub mod clock;
pub mod collections;

use vstd::prelude::*;

verus! {

/// True for the ASCII digits `0`..=`9`.
pub open spec fn is_digit_spec(c: char) -> bool {
    '0' <= c && c <= '9'
}

/// True for the ASCII capitals `A`..=`Z`.
pub open spec fn is_upper_spec(c: char) -> bool {
    'A' <= c && c <= 'Z'
}

/// ASCII lowercase of a character; every other character is left as it is.
pub open spec fn lower_spec(c: char) -> char {
    if is_upper_spec(c) {
        ((c as u32) + 32) as char
    } else {
        c
    }
}

/// Returns whether `c` is an ASCII digit.
pub fn is_ascii_digit(c: char) -> (r: bool)
    ensures
        r == is_digit_spec(c),
{
    '0' <= c && c <= '9'
}

/// Returns the ASCII lowercase of `c`.
pub fn ascii_lower(c: char) -> (r: char)
    ensures
        r == lower_spec(c),
{
    if 'A' <= c && c <= 'Z' {
        let b: u8 = (c as u8) + 32;
        b as char
    } else {
        c
    }
}

/// Appends one character to a string (`String::push`).
#[verifier::external_body]
pub(crate) fn push_char(s: &mut String, c: char)
    ensures
        final(s)@ == old(s)@.push(c),
{
    s.push(c);
}

/// The characters of `s`, in order.
pub fn chars_of(s: &str) -> (r: Vec<char>)
    ensures
        r@ == s@,
{
    let n = s.unicode_len();
    let mut out: Vec<char> = Vec::new();
    let mut i: usize = 0;
    while i < n
        invariant
            n == s@.len(),
            i <= n,
            out@ == s@.subrange(0, i as int),
        decreases n - i,
    {
        out.push(s.get_char(i));
        i += 1;
    }
    out
}

/// A string made of the characters `cs[from..to]`.
pub fn string_of_range(cs: &[char], from: usize, to: usize) -> (r: String)
    requires
        from <= to <= cs@.len(),
    ensures
        r@ == cs@.subrange(from as int, to as int),
{
    let mut out = String::new();
    let mut i = from;
    while i < to
        invariant
            from <= i <= to <= cs@.len(),
            out@ == cs@.subrange(from as int, i as int),
        decreases to - i,
    {
        push_char(&mut out, cs[i]);
        i += 1;
    }
    out
}

/// A string made of all of `cs`.
pub fn string_of(cs: &[char]) -> (r: String)
    ensures
        r@ == cs@,
{
    string_of_range(cs, 0, cs.len())
}


/// The character of a decimal digit.
pub open spec fn digit_char(d: int) -> char {
    ((d + 48) as u32) as char
}

/// The decimal numeral of `n`, without leading zeros (`0` for zero).
pub open spec fn decimal_text(n: nat) -> Seq<char>
    decreases n,
{
    if n < 10 {
        seq![digit_char(n as int)]
    } else {
        decimal_text(n / 10).push(digit_char((n % 10) as int))
    }
}

/// The decimal numeral of `n` (`u64::to_string`).
pub fn decimal_string(n: u64) -> (r: String)
    ensures
        r@ == decimal_text(n as nat),
{
    let mut digits: Vec<char> = Vec::new();
    let mut m: u64 = n;
    while m >= 10
        invariant
            m <= n,
            decimal_text(n as nat) == decimal_text(m as nat) + digits@.reverse(),
        decreases m,
    {
        let d: u8 = (m % 10) as u8;
        let c: char = (d + 48) as char;
        assert(decimal_text(m as nat) == decimal_text((m / 10) as nat).push(c));
        digits.push(c);
        assert(digits@.reverse() == seq![c] + digits@.drop_last().reverse()) by {
            assert(digits@.drop_last().push(c) == digits@);
        }
        m = m / 10;
    }
    let d: u8 = m as u8;
    let c: char = (d + 48) as char;
    assert(decimal_text(m as nat) == seq![c]);
    digits.push(c);
    assert(digits@.reverse() == seq![c] + digits@.drop_last().reverse()) by {
        assert(digits@.drop_last().push(c) == digits@);
    }
    assert(decimal_text(n as nat) == digits@.reverse());
    let mut out = String::new();
    let mut i: usize = digits.len();
    while i > 0
        invariant
            i <= digits@.len(),
            out@ == digits@.subrange(i as int, digits@.len() as int).reverse(),
        decreases i,
    {
        push_char(&mut out, digits[i - 1]);
        assert(digits@.subrange(i - 1, digits@.len() as int).reverse() == digits@.subrange(i as int, digits@.len() as int).reverse().push(digits@[i - 1]));
        i -= 1;
    }
    assert(digits@.subrange(0, digits@.len() as int) == digits@);
    out
}
} // verus!

verus! {

/// What `str::to_lowercase` makes of a text (full Unicode lowercase mapping).
pub uninterp spec fn lowercase_text(s: Seq<char>) -> Seq<char>;

/// Whether every character of a text is ASCII.
pub open spec fn all_ascii(s: Seq<char>) -> bool {
    forall|i: int| 0 <= i < s.len() ==> #[trigger] s[i] <= '\u{7f}'
}

/// The lowercase of a text as `str::to_lowercase` gives it: character by character for an
/// ASCII text, the full Unicode mapping otherwise.
pub open spec fn lowered_text(s: Seq<char>) -> Seq<char> {
    if all_ascii(s) {
        s.map_values(|c: char| lower_spec(c))
    } else {
        lowercase_text(s)
    }
}

/// Unicode lowercase of a text (`str::to_lowercase`); the result is a function of the text alone.
/// The Unicode lowercase of an ASCII character is its ASCII lowercase (`A`-`Z` to `a`-`z`,
/// every other ASCII character itself), so an ASCII text is lowercased character by character.
#[verifier::external_body]
pub(crate) fn to_lowercase(s: &str) -> (r: String)
    ensures
        r@ == lowercase_text(s@),
        all_ascii(s@) ==> r@ == s@.map_values(|c: char| lower_spec(c)),
        r@ == lowered_text(s@),
{
    s.to_lowercase()
}

/// `needle` occurs in `hay` starting at `at`.
pub open spec fn occurs_at(hay: Seq<char>, needle: Seq<char>, at: int) -> bool {
    0 <= at && at + needle.len() <= hay.len() && hay.subrange(at, at + needle.len()) == needle
}

/// `needle` occurs somewhere in `hay`.
pub open spec fn contains_text(hay: Seq<char>, needle: Seq<char>) -> bool {
    exists|at: int| occurs_at(hay, needle, at)
}

/// Whether `needle` occurs at `at` in `hay`.
fn matches_at(hay: &Vec<char>, needle: &Vec<char>, at: usize) -> (r: bool)
    requires
        at + needle@.len() <= hay@.len(),
    ensures
        r == occurs_at(hay@, needle@, at as int),
{
    let mut k: usize = 0;
    while k < needle.len()
        invariant
            k <= needle@.len(),
            at + needle@.len() <= hay@.len(),
            hay@.len() == hay.len(),
            forall|m: int| 0 <= m < k ==> hay@[at + m] == #[trigger] needle@[m],
        decreases needle@.len() - k,
    {
        if hay[at + k] != needle[k] {
            assert(hay@.subrange(at as int, at + needle@.len())[k as int] != needle@[k as int]);
            return false;
        }
        k += 1;
    }
    assert(hay@.subrange(at as int, at + needle@.len()) =~= needle@);
    true
}

/// Whether the text `hay` contains the text `needle` (`str::contains`).
pub fn text_contains(hay: &str, needle: &str) -> (r: bool)
    ensures
        r == contains_text(hay@, needle@),
{
    let h = chars_of(hay);
    let n = chars_of(needle);
    if n.len() > h.len() {
        return false;
    }
    let last = h.len() - n.len();
    let mut at: usize = 0;
    loop
        invariant
            h@ == hay@,
            n@ == needle@,
            last + n@.len() == h@.len(),
            at <= last,
            forall|p: int| 0 <= p < at ==> !occurs_at(hay@, needle@, p),
        ensures
            forall|p: int| 0 <= p <= last ==> !occurs_at(hay@, needle@, p),
        decreases last - at,
    {
        if matches_at(&h, &n, at) {
            return true;
        }
        if at == last {
            break;
        }
        at += 1;
    }
    assert forall|p: int| !occurs_at(hay@, needle@, p) by {
        if 0 <= p && p + needle@.len() <= hay@.len() {
            assert(p <= last);
        }
    }
    false
}

/// Whether two texts are equal.
pub fn text_eq(a: &str, b: &str) -> (r: bool)
    ensures
        r == (a@ == b@),
{
    let x = chars_of(a);
    let y = chars_of(b);
    if x.len() != y.len() {
        return false;
    }
    let mut k: usize = 0;
    while k < x.len()
        invariant
            x@ == a@,
            y@ == b@,
            x@.len() == y@.len(),
            k <= x@.len(),
            forall|m: int| 0 <= m < k ==> x@[m] == y@[m],
        decreases x@.len() - k,
    {
        if x[k] != y[k] {
            return false;
        }
        k += 1;
    }
    assert(x@ =~= y@);
    true
}

/// `Path::join` of a relative name onto a directory, with `/` as the separator.
pub open spec fn join_spec(dir: Seq<char>, name: Seq<char>) -> Seq<char> {
    if name.len() > 0 && name[0] == '/' {
        name
    } else if dir.len() == 0 || dir.last() == '/' {
        dir + name
    } else {
        dir + seq!['/'] + name
    }
}

/// Joins `name` onto the directory `dir` (`Path::join` on Unix).
pub fn path_join(dir: &str, name: &str) -> (r: String)
    ensures
        r@ == join_spec(dir@, name@),
{
    let n = name.unicode_len();
    if n > 0 && name.get_char(0) == '/' {
        return String::from_str(name);
    }
    let d = dir.unicode_len();
    let mut out = String::from_str(dir);
    if !(d == 0 || dir.get_char(d - 1) == '/') {
        push_char(&mut out, '/');
    }
    out.append(name);
    out
}

} // verus!

verus! {

/// What `Path::file_name` gives for a path: its last component, unless that is `..` or absent.
pub uninterp spec fn file_name_of(path: Seq<char>) -> Option<Seq<char>>;

/// `Path::file_name`: the last component of `path`, if it has one.
#[verifier::external_body]
pub(crate) fn path_file_name(path: &str) -> (r: Option<String>)
    ensures
        match r {
            Some(n) => file_name_of(path@) == Some(n@),
            None => file_name_of(path@) is None,
        },
{
    std::path::Path::new(path).file_name().map(|n| n.to_string_lossy().into_owned())
}

/// Whether `a` comes before `b` in `Path`'s order (component by component).
pub uninterp spec fn path_precedes(a: Seq<char>, b: Seq<char>) -> bool;

/// `Path < Path`: compares two paths component by component.
#[verifier::external_body]
pub(crate) fn path_lt(a: &str, b: &str) -> (r: bool)
    ensures
        r == path_precedes(a@, b@),
{
    std::path::Path::new(a) < std::path::Path::new(b)
}

/// What `Path::with_file_name` makes of `path` with its last component replaced by `name`.
pub uninterp spec fn with_file_name_of(path: Seq<char>, name: Seq<char>) -> Seq<char>;

/// `Path::with_file_name`: `path` with its last component replaced by `name`.
#[verifier::external_body]
pub(crate) fn path_with_file_name(path: &str, name: &str) -> (r: String)
    ensures
        r@ == with_file_name_of(path@, name@),
{
    std::path::Path::new(path).with_file_name(name).to_string_lossy().into_owned()
}

} // verus!

verus! {

/// Whether two paths are equal as `Path`s (component by component).
pub uninterp spec fn same_path(a: Seq<char>, b: Seq<char>) -> bool;

/// Compares two paths as `Path`s (`Path == Path`): equal texts are equal paths, and otherwise
/// the answer is a function of the two texts.
#[verifier::external_body]
pub(crate) fn paths_equal(a: &str, b: &str) -> (r: bool)
    ensures
        r == same_path(a@, b@),
        a@ == b@ ==> r,
{
    std::path::Path::new(a) == std::path::Path::new(b)
}

/// The parent of a path as text (`Path::parent`), `None` for a root or an empty path.
pub uninterp spec fn parent_of(path: Seq<char>) -> Option<Seq<char>>;

/// The parent directory of a path (`Path::parent`).
#[verifier::external_body]
pub(crate) fn path_parent(path: &str) -> (r: Option<String>)
    ensures
        match r {
            Some(p) => parent_of(path@) == Some(p@),
            None => parent_of(path@) is None,
        },
{
    std::path::Path::new(path).parent().map(|p| p.to_string_lossy().into_owned())
}

} // verus!

verus! {

/// `s` with every occurrence of `pat` replaced by `rep`, scanning from the left and not
/// looking into replaced text (`str::replace`, for a non-empty pattern).
pub open spec fn replaced(s: Seq<char>, pat: Seq<char>, rep: Seq<char>) -> Seq<char>
    decreases s.len(),
{
    if pat.len() == 0 || s.len() == 0 {
        s
    } else if pat.len() <= s.len() && s.subrange(0, pat.len() as int) == pat {
        rep + replaced(s.subrange(pat.len() as int, s.len() as int), pat, rep)
    } else {
        seq![s[0]] + replaced(s.subrange(1, s.len() as int), pat, rep)
    }
}

/// Replaces every occurrence of a non-empty `pat` in `s` by `rep` (`str::replace`).
pub fn replace_all(s: &str, pat: &str, rep: &str) -> (r: String)
    requires
        pat@.len() > 0,
    ensures
        r@ == replaced(s@, pat@, rep@),
{
    let h = chars_of(s);
    let p = chars_of(pat);
    let mut out = String::new();
    let mut i: usize = 0;
    assert(h@.subrange(0, h@.len() as int) == h@);
    while i < h.len()
        invariant
            h@ == s@,
            p@ == pat@,
            p@.len() > 0,
            i <= h@.len(),
            replaced(s@, pat@, rep@) == out@ + replaced(h@.subrange(i as int, h@.len() as int), pat@, rep@),
        decreases h@.len() - i,
    {
        let ghost t = h@.subrange(i as int, h@.len() as int);
        let fits = p.len() <= h.len() - i;
        if fits && matches_at(&h, &p, i) {
            assert(t.subrange(0, p@.len() as int) == h@.subrange(i as int, i + p@.len()));
            assert(t.subrange(p@.len() as int, t.len() as int) == h@.subrange(i + p@.len(), h@.len() as int));
            out.append(rep);
            i += p.len();
        } else {
            if fits {
                assert(t.subrange(0, p@.len() as int) == h@.subrange(i as int, i + p@.len()));
            }
            assert(t.subrange(1, t.len() as int) == h@.subrange(i + 1, h@.len() as int));
            push_char(&mut out, h[i]);
            i += 1;
        }
    }
    out
}

/// Whether `path` starts with the components of `base` (`Path::starts_with`).
pub uninterp spec fn path_has_prefix(path: Seq<char>, base: Seq<char>) -> bool;

/// Whether `path` starts with the components of `base` (`Path::starts_with`): a path starts
/// with itself, and otherwise the answer is a function of the two texts.
#[verifier::external_body]
pub(crate) fn path_starts_with(path: &str, base: &str) -> (r: bool)
    ensures
        r == path_has_prefix(path@, base@),
        path@ == base@ ==> r,
{
    std::path::Path::new(path).starts_with(std::path::Path::new(base))
}

/// A typed path with its leading `~` standing for the home directory: `~` alone, or `~`
/// followed by `/`, has `home` in place of the `~` where the home directory is known; any other
/// text is kept as it is.
pub open spec fn expand_home_spec(input: Seq<char>, home: Option<Seq<char>>) -> Seq<char> {
    if home is Some && input.len() > 0 && input[0] == '~' && (input.len() == 1 || input[1] == '/') {
        home->0 + input.subrange(1, input.len() as int)
    } else {
        input
    }
}

/// Puts the home directory in place of a leading `~` (see `expand_home_spec`).
pub fn expand_home(input: &str, home: Option<&str>) -> (r: String)
    ensures
        r@ == expand_home_spec(input@, match home {
            Some(h) => Some(h@),
            None => None,
        }),
{
    let cs = chars_of(input);
    let n = cs.len();
    match home {
        Some(h) => {
            if n > 0 && cs[0] == '~' && (n == 1 || cs[1] == '/') {
                let mut out = String::from_str(h);
                let rest = string_of_range(&cs, 1, n);
                out.append(rest.as_str());
                out
            } else {
                String::from_str(input)
            }
        },
        None => String::from_str(input),
    }
}

} // verus!
