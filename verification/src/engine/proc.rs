//! The external tools that the file manager runs: `fd` (also packaged as `fd-find`) for
//! finding and completing paths, and `bat` for previews; what `fd` is asked when a directory
//! name is completed, and the directories its answer names.

use crate::engine::listing::{lemma_insert_multiset, lemma_lex_antisymmetric, text_order, text_order_exec};
use crate::utils::collections::texts;
use crate::utils::{chars_of, lowercase_text, string_of_range, to_lowercase};
use vstd::prelude::*;
use vstd::utf8::encode_utf8;

verus! {

/// An external tool that is not installed.
#[derive(Clone, Debug, PartialEq, Eq, Structural)]
pub enum ToolError {
    /// `fd` was looked for under both of its names.
    FdNotFound,
    /// `bat` was looked for.
    BatNotFound,
}

impl ToolError {
    /// A sentence that says which tool is missing.
    pub fn message(&self) -> (r: String)
        ensures
            r@ == (match self {
                ToolError::FdNotFound => "fd was not found in PATH (looked for fd and fd-find)"@,
                ToolError::BatNotFound => "bat was not found in PATH"@,
            }),
    {
        match self {
            ToolError::FdNotFound => String::from_str("fd was not found in PATH (looked for fd and fd-find)"),
            ToolError::BatNotFound => String::from_str("bat was not found in PATH"),
        }
    }
}

/// Whether an executable of this name is found on the search path (`which::which(..).is_ok()`).
/// Nothing is promised of the answer: it depends on the machine.
#[verifier::external_body]
pub fn command_exists(name: &str) -> bool {
    which::which(name).is_ok()
}

/// The name under which `fd` is run, given which of its names are installed: `fd` first,
/// then `fd-find`.
pub fn fd_binary_among(has_fd: bool, has_fd_find: bool) -> (r: Result<&'static str, ToolError>)
    ensures
        has_fd ==> (r matches Ok(b) && b@ == "fd"@),
        !has_fd && has_fd_find ==> (r matches Ok(b) && b@ == "fd-find"@),
        !has_fd && !has_fd_find ==> r == Err::<&'static str, ToolError>(ToolError::FdNotFound),
{
    if has_fd {
        Ok("fd")
    } else if has_fd_find {
        Ok("fd-find")
    } else {
        Err(ToolError::FdNotFound)
    }
}

/// The name under which `fd` is run on this machine (see `fd_binary_among`).
pub fn fd_binary() -> (r: Result<&'static str, ToolError>)
    ensures
        r matches Ok(b) ==> b@ == "fd"@ || b@ == "fd-find"@,
        r matches Err(e) ==> e == ToolError::FdNotFound,
{
    let has_fd = command_exists("fd");
    let has_fd_find = if has_fd { false } else { command_exists("fd-find") };
    fd_binary_among(has_fd, has_fd_find)
}

/// The name under which `bat` is run, given whether it is installed.
pub fn bat_binary_among(has_bat: bool) -> (r: Result<&'static str, ToolError>)
    ensures
        has_bat ==> (r matches Ok(b) && b@ == "bat"@),
        !has_bat ==> r == Err::<&'static str, ToolError>(ToolError::BatNotFound),
{
    if has_bat {
        Ok("bat")
    } else {
        Err(ToolError::BatNotFound)
    }
}

/// The name under which `bat` is run on this machine.
pub fn bat_binary() -> (r: Result<&'static str, ToolError>)
    ensures
        r matches Ok(b) ==> b@ == "bat"@,
        r matches Err(e) ==> e == ToolError::BatNotFound,
{
    bat_binary_among(command_exists("bat"))
}

/// What `fd` is asked when a directory name is completed: directories only, one level deep,
/// hidden ones too where hidden entries are shown, whose names start with `prefix` (written
/// into the pattern as it is). The directory searched follows these arguments.
pub open spec fn completion_args_spec(prefix: Seq<char>, show_hidden: bool) -> Seq<Seq<char>> {
    let head = seq!["--type"@, "d"@, "--max-depth"@, "1"@];
    let flags = if show_hidden { head.push("--hidden"@) } else { head };
    flags.push("^"@ + prefix)
}

/// The arguments of `fd` for completing a directory name (see `completion_args_spec`).
pub fn completion_args(prefix: &str, show_hidden: bool) -> (r: Vec<String>)
    ensures
        texts(r@) == completion_args_spec(prefix@, show_hidden),
{
    let mut args: Vec<String> = Vec::new();
    args.push(String::from_str("--type"));
    args.push(String::from_str("d"));
    args.push(String::from_str("--max-depth"));
    args.push(String::from_str("1"));
    if show_hidden {
        args.push(String::from_str("--hidden"));
    }
    let mut pattern = String::from_str("^");
    pattern.append(prefix);
    args.push(pattern);
    assert(texts(args@) =~= completion_args_spec(prefix@, show_hidden));
    args
}

/// A path with the separators at its end taken off.
pub open spec fn without_trailing_slashes(s: Seq<char>) -> Seq<char>
    decreases s.len(),
{
    if s.len() > 0 && s.last() == '/' {
        without_trailing_slashes(s.drop_last())
    } else {
        s
    }
}

/// Each name ordered no later than the next by its lowercase form.
pub open spec fn by_lowercase(s: Seq<Seq<char>>) -> bool {
    forall|k: int| 0 <= k < s.len() - 1 ==> text_order(lowercase_text(#[trigger] s[k]), lowercase_text(s[k + 1])) <= 0
}

/// The directories a listing of `fd` names: each line without its trailing separators.
pub open spec fn completion_lines(lines: Seq<String>) -> Seq<Seq<char>> {
    lines.map_values(|l: String| without_trailing_slashes(l@))
}

/// `s[..i]` with the separators at its end taken off, as a length.
fn trimmed_len(cs: &Vec<char>) -> (r: usize)
    ensures
        r <= cs@.len(),
        cs@.subrange(0, r as int) == without_trailing_slashes(cs@),
{
    let mut i: usize = cs.len();
    assert(cs@.subrange(0, i as int) =~= cs@);
    while i > 0 && cs[i - 1] == '/'
        invariant
            i <= cs@.len(),
            without_trailing_slashes(cs@) == without_trailing_slashes(cs@.subrange(0, i as int)),
        decreases i,
    {
        assert(cs@.subrange(0, i as int).drop_last() =~= cs@.subrange(0, i - 1));
        i -= 1;
    }
    assert(without_trailing_slashes(cs@.subrange(0, i as int)) == cs@.subrange(0, i as int));
    i
}

/// The directories `fd` listed for a completion: each line without its trailing separators,
/// ordered by their lowercase forms; the result holds the same names, each no later than the
/// next.
pub fn completion_names(lines: &[String]) -> (r: Vec<String>)
    ensures
        texts(r@).to_multiset() == completion_lines(lines@).to_multiset(),
        by_lowercase(texts(r@)),
{
    let mut sorted: Vec<String> = Vec::new();
    let mut keys: Vec<String> = Vec::new();
    let mut i: usize = 0;
    assert(texts(sorted@) =~= completion_lines(lines@.subrange(0, 0)));
    while i < lines.len()
        invariant
            i <= lines@.len(),
            keys@.len() == sorted@.len(),
            forall|j: int| 0 <= j < sorted@.len() ==> #[trigger] keys@[j]@ == lowercase_text(sorted@[j]@),
            texts(sorted@).to_multiset() == completion_lines(lines@.subrange(0, i as int)).to_multiset(),
            by_lowercase(texts(sorted@)),
        decreases lines@.len() - i,
    {
        let cs = chars_of(lines[i].as_str());
        let end = trimmed_len(&cs);
        let name = string_of_range(&cs, 0, end);
        let key = to_lowercase(name.as_str());
        let mut p: usize = sorted.len();
        while p > 0 && text_order_exec(keys[p - 1].as_str(), key.as_str()) > 0
            invariant
                p <= sorted@.len(),
                key@ == lowercase_text(name@),
                keys@.len() == sorted@.len(),
                forall|j: int| 0 <= j < sorted@.len() ==> #[trigger] keys@[j]@ == lowercase_text(sorted@[j]@),
                forall|q: int| p <= q < sorted@.len() ==> text_order(lowercase_text(#[trigger] sorted@[q]@), lowercase_text(name@)) > 0,
            decreases p,
        {
            assert(keys@[p - 1]@ == lowercase_text(sorted@[p - 1]@));
            p -= 1;
        }
        let ghost before = texts(sorted@);
        let ghost old_keys = keys@;
        let ghost old_sorted = sorted@;
        sorted.insert(p, name);
        keys.insert(p, key);
        proof {
            assert(texts(sorted@) == before.insert(p as int, name@));
            lemma_insert_multiset(before, p as int, name@);
            assert(completion_lines(lines@.subrange(0, i + 1)) == completion_lines(lines@.subrange(0, i as int)).push(name@));
            completion_lines(lines@.subrange(0, i as int)).to_multiset_ensures();
            assert forall|j: int| 0 <= j < sorted@.len() implies #[trigger] keys@[j]@ == lowercase_text(sorted@[j]@) by {
                if j < p {
                    assert(keys@[j] == old_keys[j] && sorted@[j] == old_sorted[j]);
                } else if j > p {
                    assert(keys@[j] == old_keys[j - 1] && sorted@[j] == old_sorted[j - 1]);
                }
            }
            let s = texts(sorted@);
            assert forall|k: int| 0 <= k < s.len() - 1 implies text_order(lowercase_text(#[trigger] s[k]), lowercase_text(s[k + 1])) <= 0 by {
                if k + 1 < p {
                    assert(s[k] == before[k] && s[k + 1] == before[k + 1]);
                } else if k + 1 == p {
                    assert(s[k] == before[k] && s[k + 1] == name@);
                } else if k == p {
                    assert(s[k] == name@ && s[k + 1] == before[k]);
                    assert(old_sorted[k]@ == before[k]);
                    assert(text_order(lowercase_text(old_sorted[k]@), lowercase_text(name@)) > 0);
                    lemma_lex_antisymmetric(encode_utf8(lowercase_text(name@)), encode_utf8(lowercase_text(before[k])), 0);
                } else {
                    assert(s[k] == before[k - 1] && s[k + 1] == before[k]);
                }
            }
        }
        i += 1;
    }
    assert(lines@.subrange(0, lines@.len() as int) == lines@);
    sorted
}

} // verus!
