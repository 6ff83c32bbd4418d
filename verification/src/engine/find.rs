//! Fuzzy find: the results shown in the find dialog and the ranking of candidate paths.
//!
//! The candidate paths come from an `fd` listing (read by the application); each is scored
//! against the query with the skim fuzzy matcher, and the best ones are kept, best first.

use crate::utils::collections::texts;
use crate::utils::{decimal_string, decimal_text, join_spec, push_char, same_path};
use fuzzy_matcher::FuzzyMatcher;
use vstd::prelude::*;

verus! {

/// The score that `SkimMatcherV2::default().fuzzy_match(choice, pattern)` gives, if it matches.
pub uninterp spec fn skim_score(choice: Seq<char>, pattern: Seq<char>) -> Option<i64>;

/// Scores `choice` against `pattern` with the skim fuzzy matcher in its default setup
/// (`SkimMatcherV2::fuzzy_match`). The score is a function of the two texts; an empty
/// pattern matches everything with score 0.
#[verifier::external_body]
fn fuzzy_score(choice: &str, pattern: &str) -> (r: Option<i64>)
    ensures
        r == skim_score(choice@, pattern@),
        pattern@.len() == 0 ==> r == Some(0i64),
{
    fuzzy_matcher::skim::SkimMatcherV2::default().fuzzy_match(choice, pattern)
}

/// What `str::trim` leaves of a text (leading and trailing Unicode white space removed).
pub uninterp spec fn trimmed(s: Seq<char>) -> Seq<char>;

/// `str::trim`: the text without leading and trailing white space.
#[verifier::external_body]
fn trim_text(s: &str) -> (r: String)
    ensures
        r@ == trimmed(s@),
{
    s.trim().to_string()
}

/// `s` with every backslash turned into a forward slash.
pub open spec fn slashes_forward(s: Seq<char>) -> Seq<char> {
    s.map_values(|c: char| if c == '\\' { '/' } else { c })
}

/// Turns every backslash of `s` into a forward slash.
pub fn normalize_separators(s: &str) -> (r: String)
    ensures
        r@ == slashes_forward(s@),
{
    let n = s.unicode_len();
    let mut out = String::new();
    let mut i: usize = 0;
    while i < n
        invariant
            n == s@.len(),
            i <= n,
            out@ == slashes_forward(s@.subrange(0, i as int)),
        decreases n - i,
    {
        let c = s.get_char(i);
        push_char(&mut out, if c == '\\' { '/' } else { c });
        assert(slashes_forward(s@.subrange(0, i + 1)) =~= slashes_forward(s@.subrange(0, i as int)).push(
            if c == '\\' { '/' } else { c },
        ));
        i += 1;
    }
    assert(s@.subrange(0, n as int) =~= s@);
    out
}

/// A relative path as shown to the user. Paths use `/` here, so it is the path as it is.
pub fn normalize_relative_path(path: &str) -> (r: String)
    ensures
        r@ == path@,
{
    String::from_str(path)
}

/// What `Path::strip_prefix` leaves of `path` once `base` is taken off its front
/// (component-wise), if `base` is a prefix of it.
pub uninterp spec fn stripped_prefix(path: Seq<char>, base: Seq<char>) -> Option<Seq<char>>;

/// `Path::strip_prefix`: `path` relative to `base`, if `base` is one of its ancestors (or itself).
/// As its documentation says, the path it returns, joined onto `base`, yields `path` again.
#[verifier::external_body]
fn strip_path_prefix(path: &str, base: &str) -> (r: Option<String>)
    ensures
        match r {
            Some(s) => stripped_prefix(path@, base@) == Some(s@) && same_path(join_spec(base@, s@), path@),
            None => stripped_prefix(path@, base@) is None,
        },
{
    std::path::Path::new(path).strip_prefix(base).ok().map(|p| p.to_string_lossy().into_owned())
}

/// A single result of the find function: the path, whether it is a directory, and the score
/// of the fuzzy match.
#[derive(Debug)]
pub struct FindResult {
    path: String,
    is_dir: bool,
    score: i64,
}

impl View for FindResult {
    /// (path, is a directory, score)
    type V = (Seq<char>, bool, i64);

    closed spec fn view(&self) -> Self::V {
        (self.path@, self.is_dir, self.score)
    }
}

impl FindResult {
    /// A result for `path`.
    pub fn new(path: String, is_dir: bool, score: i64) -> (r: Self)
        ensures
            r@ == (path@, is_dir, score),
    {
        FindResult { path, is_dir, score }
    }

    /// The path of the match.
    pub fn path(&self) -> (r: &str)
        ensures
            r@ == self@.0,
    {
        self.path.as_str()
    }

    /// Whether the match is a directory.
    pub fn is_dir(&self) -> (r: bool)
        ensures
            r == self@.1,
    {
        self.is_dir
    }

    /// The score of the match; higher is better.
    pub fn score(&self) -> (r: i64)
        ensures
            r == self@.2,
    {
        self.score
    }

    /// The path relative to `base` (the whole path where `base` is not one of its ancestors);
    /// joined onto `base`, a relative path gives the result's path back.
    pub fn relative(&self, base: &str) -> (r: String)
        ensures
            r@ == (match stripped_prefix(self@.0, base@) {
                Some(rel) => rel,
                None => self@.0,
            }),
            stripped_prefix(self@.0, base@) is Some ==> same_path(join_spec(base@, r@), self@.0),
    {
        match strip_path_prefix(self.path.as_str(), base) {
            Some(rel) => normalize_relative_path(rel.as_str()),
            None => normalize_relative_path(self.path.as_str()),
        }
    }

    /// A copy of the result.
    pub fn duplicate(&self) -> (r: Self)
        ensures
            r@ == self@,
    {
        FindResult { path: self.path.clone(), is_dir: self.is_dir, score: self.score }
    }
}

} // verus!

verus! {

/// The matching candidates of a listing, in listing order: each line is trimmed, its
/// backslashes turned into slashes, and scored against the query (slashes likewise);
/// lines that do not match are left out.
pub open spec fn find_matches(lines: Seq<Seq<char>>, query: Seq<char>) -> Seq<(Seq<char>, i64)>
    decreases lines.len(),
{
    if lines.len() == 0 {
        Seq::empty()
    } else {
        let rest = find_matches(lines.drop_last(), query);
        let rel = slashes_forward(trimmed(lines.last()));
        match skim_score(rel, slashes_forward(query)) {
            Some(score) => rest.push((rel, score)),
            None => rest,
        }
    }
}

/// Scores are non-increasing along `s`.
pub open spec fn best_first(s: Seq<(Seq<char>, i64)>) -> bool {
    forall|i: int, j: int| 0 <= i < j < s.len() ==> s[i].1 >= s[j].1
}

/// The outcome of ranking: the kept candidates are the first `max` of some best-first
/// arrangement of all matching candidates.
pub open spec fn ranked(matches: Seq<(Seq<char>, i64)>, max: nat, kept: Seq<(Seq<char>, i64)>) -> bool {
    exists|all: Seq<(Seq<char>, i64)>|
        #![trigger all.to_multiset()]
        all.to_multiset() == matches.to_multiset() && best_first(all) && kept == all.take(
            if max < all.len() { max as int } else { all.len() as int },
        )
}

/// A candidate that matched: its path relative to the search root, and its score.
pub struct RawResult {
    relative: String,
    score: i64,
}

impl View for RawResult {
    type V = (Seq<char>, i64);

    closed spec fn view(&self) -> (Seq<char>, i64) {
        (self.relative@, self.score)
    }
}

/// The views of a list of raw results.
pub open spec fn raw_views(s: Seq<RawResult>) -> Seq<(Seq<char>, i64)> {
    s.map_values(|r: RawResult| r@)
}

impl RawResult {
    /// The path relative to the search root.
    pub fn relative(&self) -> (r: &str)
        ensures
            r@ == self@.0,
    {
        self.relative.as_str()
    }

    /// The score of the match.
    pub fn score(&self) -> (r: i64)
        ensures
            r == self@.1,
    {
        self.score
    }
}

proof fn lemma_insert_multiset<A>(s: Seq<A>, pos: int, x: A)
    requires
        0 <= pos <= s.len(),
    ensures
        s.insert(pos, x).to_multiset() == s.to_multiset().insert(x),
{
    let s2 = s.insert(pos, x);
    s.insert_ensures(pos, x);
    assert(s2.remove(pos) =~= s);
    s2.to_multiset_ensures();
    assert(s2[pos] == x);
    assert(s2.contains(x));
    assert(s2.to_multiset().count(x) > 0);
    assert(s2.to_multiset() =~= s2.to_multiset().remove(x).insert(x));
}

/// What `fd` is asked for the candidates of a find under `base_dir`: every file and directory,
/// hidden ones too, uncolored, at most `max_results` of them.
pub open spec fn find_args_spec(base_dir: Seq<char>, max_results: nat) -> Seq<Seq<char>> {
    seq![
        "."@,
        base_dir,
        "--type"@,
        "f"@,
        "--type"@,
        "d"@,
        "--hidden"@,
        "--color"@,
        "never"@,
        "--max-results"@,
        decimal_text(max_results),
    ]
}

/// The arguments of `fd` for a find (see `find_args_spec`).
pub fn find_args(base_dir: &str, max_results: usize) -> (r: Vec<String>)
    ensures
        texts(r@) == find_args_spec(base_dir@, max_results as nat),
{
    let mut args: Vec<String> = Vec::new();
    args.push(String::from_str("."));
    args.push(String::from_str(base_dir));
    args.push(String::from_str("--type"));
    args.push(String::from_str("f"));
    args.push(String::from_str("--type"));
    args.push(String::from_str("d"));
    args.push(String::from_str("--hidden"));
    args.push(String::from_str("--color"));
    args.push(String::from_str("never"));
    args.push(String::from_str("--max-results"));
    args.push(decimal_string(max_results as u64));
    assert(texts(args@) =~= find_args_spec(base_dir@, max_results as nat));
    args
}

/// Scores every line of an `fd` listing against `query` and keeps the best `max_results`,
/// best first. An empty query finds nothing.
pub fn rank_listing(lines: &[String], query: &str, max_results: usize) -> (r: Vec<RawResult>)
    ensures
        query@.len() == 0 ==> r@.len() == 0,
        query@.len() != 0 ==> ranked(
            find_matches(lines@.map_values(|s: String| s@), query@),
            max_results as nat,
            raw_views(r@),
        ),
{
    let ghost texts = lines@.map_values(|s: String| s@);
    if query.unicode_len() == 0 {
        return Vec::new();
    }
    let norm_query = normalize_separators(query);
    let mut sorted: Vec<RawResult> = Vec::new();
    let mut i: usize = 0;
    assert(raw_views(sorted@) =~= find_matches(texts.subrange(0, 0), query@));
    while i < lines.len()
        invariant
            i <= lines@.len(),
            texts == lines@.map_values(|s: String| s@),
            norm_query@ == slashes_forward(query@),
            best_first(raw_views(sorted@)),
            raw_views(sorted@).to_multiset() == find_matches(texts.subrange(0, i as int), query@).to_multiset(),
        decreases lines@.len() - i,
    {
        let rel = normalize_separators(trim_text(lines[i].as_str()).as_str());
        let found = fuzzy_score(rel.as_str(), norm_query.as_str());
        assert(texts.subrange(0, i + 1).drop_last() =~= texts.subrange(0, i as int));
        assert(texts.subrange(0, i + 1).last() == lines@[i as int]@);
        match found {
            Some(score) => {
                let mut pos: usize = 0;
                while pos < sorted.len() && sorted[pos].score >= score
                    invariant
                        pos <= sorted@.len(),
                        forall|k: int| 0 <= k < pos ==> (#[trigger] sorted@[k])@.1 >= score,
                    decreases sorted@.len() - pos,
                {
                    pos += 1;
                }
                let ghost before = raw_views(sorted@);
                let item = RawResult { relative: rel, score };
                let ghost iv = item@;
                sorted.insert(pos, item);
                proof {
                    assert(raw_views(sorted@) =~= before.insert(pos as int, iv));
                    lemma_insert_multiset(before, pos as int, iv);
                    find_matches(texts.subrange(0, i as int), query@).to_multiset_ensures();
                    before.insert_ensures(pos as int, iv);
                    assert forall|a: int, b: int| 0 <= a < b < raw_views(sorted@).len()
                        implies raw_views(sorted@)[a].1 >= raw_views(sorted@)[b].1 by {
                        if b < pos {
                        } else if b == pos {
                            assert(raw_views(sorted@)[a] == before[a]);
                            assert(sorted@[a]@.1 >= score);
                        } else if a < pos {
                            assert(raw_views(sorted@)[b] == before[b - 1]);
                        } else if a == pos {
                            assert(raw_views(sorted@)[b] == before[b - 1]);
                            assert(pos < before.len());
                            assert(!(before[pos as int].1 >= score));
                        } else {
                            assert(raw_views(sorted@)[b] == before[b - 1]);
                            assert(raw_views(sorted@)[a] == before[a - 1]);
                        }
                    }
                }
            },
            None => {},
        }
        i += 1;
    }
    assert(texts.subrange(0, lines@.len() as int) =~= texts);
    let ghost all = raw_views(sorted@);
    if sorted.len() > max_results {
        sorted.truncate(max_results);
    }
    assert(raw_views(sorted@) =~= all.take(if (max_results as nat) < all.len() { max_results as int } else { all.len() as int }));
    sorted
}

/// The paths that a ranking names, joined onto the search root, with their scores.
pub fn joined_paths(base_dir: &str, ranked: &Vec<RawResult>) -> (r: Vec<(String, i64)>)
    ensures
        r@.len() == ranked@.len(),
        forall|k: int| 0 <= k < r@.len() ==> (#[trigger] r@[k]).0@ == crate::utils::join_spec(base_dir@, ranked@[k]@.0)
            && r@[k].1 == ranked@[k]@.1,
{
    let mut out: Vec<(String, i64)> = Vec::new();
    let mut k: usize = 0;
    while k < ranked.len()
        invariant
            k <= ranked@.len(),
            out@.len() == k,
            forall|m: int| 0 <= m < k ==> (#[trigger] out@[m]).0@ == crate::utils::join_spec(base_dir@, ranked@[m]@.0)
                && out@[m].1 == ranked@[m]@.1,
        decreases ranked@.len() - k,
    {
        let p = crate::utils::path_join(base_dir, ranked[k].relative.as_str());
        out.push((p, ranked[k].score));
        k += 1;
    }
    out
}

} // verus!
