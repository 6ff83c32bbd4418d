//! Completing a typed directory path with the Tab key: where the typed text splits into the
//! directory searched and the start of a name, the suggestions kept for the text they were
//! found for, taken in turn, and the text a suggestion completes the input to.

use crate::utils::collections::texts;
use crate::utils::{chars_of, join_spec, path_join, push_char, string_of_range};
use vstd::prelude::*;

verus! {

/// The suggestions found for a typed text and the one to offer next.
pub struct AutoComplete {
    suggestions: Vec<String>,
    index: usize,
    last_input: String,
}

impl AutoComplete {
    /// The suggestions, in the order they are offered.
    pub closed spec fn items(&self) -> Seq<Seq<char>> {
        texts(self.suggestions@)
    }

    /// The position of the suggestion offered next.
    pub closed spec fn position(&self) -> nat {
        self.index as nat
    }

    /// The text the suggestions were found for.
    pub closed spec fn input(&self) -> Seq<char> {
        self.last_input@
    }

    /// The position is that of a suggestion, or 0 where there is none.
    pub closed spec fn wf(&self) -> bool {
        if self.suggestions@.len() == 0 {
            self.index == 0
        } else {
            self.index < self.suggestions@.len()
        }
    }

    /// No suggestions, found for the empty text.
    pub fn new() -> (r: Self)
        ensures
            r.wf(),
            r.items().len() == 0,
            r.position() == 0,
            r.input().len() == 0,
    {
        AutoComplete { suggestions: Vec::new(), index: 0, last_input: String::new() }
    }

    /// The text the suggestions were found for.
    pub fn last_input(&self) -> (r: &str)
        ensures
            r@ == self.input(),
    {
        self.last_input.as_str()
    }

    /// The suggestions, in the order they are offered.
    pub fn suggestions(&self) -> (r: &[String])
        ensures
            texts(r@) == self.items(),
    {
        self.suggestions.as_slice()
    }

    /// Whether suggestions are to be looked for again: the text changed or none were found.
    pub fn needs_update(&self, input: &str) -> (r: bool)
        ensures
            r == (self.input() != input@ || self.items().len() == 0),
    {
        let changed = !crate::utils::text_eq(self.last_input.as_str(), input);
        changed || self.suggestions.len() == 0
    }

    /// Keeps `suggestions`, found for `input`, and offers the first of them next.
    pub fn update(&mut self, suggestions: Vec<String>, input: &str)
        ensures
            final(self).wf(),
            final(self).items() == texts(suggestions@),
            final(self).position() == 0,
            final(self).input() == input@,
    {
        self.suggestions = suggestions;
        self.index = 0;
        self.last_input = String::from_str(input);
    }

    /// The suggestion offered next, if there is one.
    pub fn current(&self) -> (r: Option<String>)
        requires
            self.wf(),
        ensures
            self.items().len() == 0 ==> r is None,
            self.items().len() > 0 ==> (r matches Some(s) && s@ == self.items()[self.position() as int]),
    {
        if self.index < self.suggestions.len() {
            Some(self.suggestions[self.index].clone())
        } else {
            None
        }
    }

    /// Moves on to the next suggestion, after the last back to the first.
    pub fn advance(&mut self)
        requires
            old(self).wf(),
        ensures
            final(self).wf(),
            final(self).items() == old(self).items(),
            final(self).input() == old(self).input(),
            old(self).items().len() == 0 ==> final(self).position() == 0,
            old(self).items().len() > 0 ==> final(self).position() == (old(self).position() + 1) % old(self).items().len(),
    {
        let n = self.suggestions.len();
        if n > 0 {
            if self.index + 1 < n {
                self.index = self.index + 1;
                proof {
                    vstd::arithmetic::div_mod::lemma_small_mod(self.index as nat, n as nat);
                }
            } else {
                proof {
                    vstd::arithmetic::div_mod::lemma_mod_self_0(n as int);
                }
                self.index = 0;
            }
        }
    }

    /// The suggestion offered next, moving on past it.
    pub fn take_next(&mut self) -> (r: Option<String>)
        requires
            old(self).wf(),
        ensures
            final(self).wf(),
            final(self).items() == old(self).items(),
            final(self).input() == old(self).input(),
            old(self).items().len() == 0 ==> r is None && final(self).position() == 0,
            old(self).items().len() > 0 ==> (r matches Some(s) && s@ == old(self).items()[old(self).position() as int])
                && final(self).position() == (old(self).position() + 1) % old(self).items().len(),
    {
        let s = self.current();
        if s.is_some() {
            self.advance();
        }
        s
    }
}

/// Offering a suggestion as many times as there are suggestions comes back to the one first
/// offered.
pub proof fn lemma_suggestions_cycle(position: nat, len: nat, k: nat)
    requires
        position < len,
    ensures
        (position + k * len) % len == position,
    decreases k,
{
    if k == 0 {
        vstd::arithmetic::div_mod::lemma_small_mod(position, len);
    } else {
        lemma_suggestions_cycle(position, len, (k - 1) as nat);
        let before: int = position + (k - 1) * len;
        assert(position + k * len == len + before) by (nonlinear_arith)
            requires
                before == position + (k - 1) * len,
                k > 0,
        ;
        vstd::arithmetic::div_mod::lemma_mod_add_multiples_vanish(before, len as int);
    }
}

/// The index of the last `/` in `s[..i]`, or -1.
pub open spec fn last_separator(s: Seq<char>, i: int) -> int
    decreases i,
{
    if i <= 0 || i > s.len() {
        -1
    } else if s[i - 1] == '/' {
        i - 1
    } else {
        last_separator(s, i - 1)
    }
}

/// Where a typed path splits: after its last `/` into the directory to search (with the `/`)
/// and the start of a name; `None` where it has no `/`, and the current directory is searched
/// for the whole text.
pub open spec fn completion_split_spec(s: Seq<char>) -> Option<(Seq<char>, Seq<char>)> {
    let d = last_separator(s, s.len() as int);
    if d < 0 {
        None
    } else {
        Some((s.subrange(0, d + 1), s.subrange(d + 1, s.len() as int)))
    }
}

/// Splits a typed path after its last `/` (see `completion_split_spec`).
pub fn completion_split(expanded: &str) -> (r: Option<(String, String)>)
    ensures
        match completion_split_spec(expanded@) {
            Some((base, prefix)) => r matches Some((b, p)) && b@ == base && p@ == prefix,
            None => r is None,
        },
{
    let cs = chars_of(expanded);
    let mut i: usize = cs.len();
    while i > 0
        invariant
            i <= cs@.len(),
            cs@ == expanded@,
            last_separator(cs@, cs@.len() as int) == last_separator(cs@, i as int),
        decreases i,
    {
        if cs[i - 1] == '/' {
            let base = string_of_range(&cs, 0, i);
            let prefix = string_of_range(&cs, i, cs.len());
            return Some((base, prefix));
        }
        i -= 1;
    }
    None
}

/// The text a suggestion completes the input to: the suggestion joined onto the directory
/// searched, ending in `/`.
pub open spec fn completed_spec(base: Seq<char>, suggestion: Seq<char>) -> Seq<char> {
    let joined = join_spec(base, suggestion);
    if joined.len() > 0 && joined.last() == '/' {
        joined
    } else {
        joined.push('/')
    }
}

/// The text a suggestion completes the input to (see `completed_spec`).
pub fn completed_input(base: &str, suggestion: &str) -> (r: String)
    ensures
        r@ == completed_spec(base@, suggestion@),
{
    let mut out = path_join(base, suggestion);
    let n = out.as_str().unicode_len();
    if !(n > 0 && out.as_str().get_char(n - 1) == '/') {
        push_char(&mut out, '/');
    }
    out
}

} // verus!
