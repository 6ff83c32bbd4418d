//! Overlays stacked over the panes: the file information, a timed message, the help of a
//! two-key command, and the key binding help. The last one pushed is on top.

use vstd::prelude::*;

verus! {

/// An overlay; `I` is the file information it may show.
pub enum Overlay<I> {
    ShowInfo { info: I },
    Message { text: String },
    PrefixHelp,
    KeybindHelp,
}

/// The kind of an overlay.
#[derive(Debug, Clone, Copy, PartialEq, Eq, Structural)]
pub enum OverlayKind {
    ShowInfo,
    Message,
    PrefixHelp,
    KeybindHelp,
}

/// The kind of an overlay.
pub open spec fn kind_of<I>(o: Overlay<I>) -> OverlayKind {
    match o {
        Overlay::ShowInfo { .. } => OverlayKind::ShowInfo,
        Overlay::Message { .. } => OverlayKind::Message,
        Overlay::PrefixHelp => OverlayKind::PrefixHelp,
        Overlay::KeybindHelp => OverlayKind::KeybindHelp,
    }
}

/// The overlays of `s` not of kind `k`, in order.
pub open spec fn without_kind<I>(s: Seq<Overlay<I>>, k: OverlayKind) -> Seq<Overlay<I>>
    decreases s.len(),
{
    if s.len() == 0 {
        Seq::empty()
    } else if kind_of(s.last()) == k {
        without_kind(s.drop_last(), k)
    } else {
        without_kind(s.drop_last(), k).push(s.last())
    }
}

/// Whether an overlay of kind `k` is in `s`.
pub open spec fn has_kind<I>(s: Seq<Overlay<I>>, k: OverlayKind) -> bool {
    exists|i: int| 0 <= i < s.len() && kind_of(#[trigger] s[i]) == k
}

impl<I> Overlay<I> {
    /// The kind of the overlay.
    pub fn kind(&self) -> (r: OverlayKind)
        ensures
            r == kind_of(*self),
    {
        match self {
            Overlay::ShowInfo { .. } => OverlayKind::ShowInfo,
            Overlay::Message { .. } => OverlayKind::Message,
            Overlay::PrefixHelp => OverlayKind::PrefixHelp,
            Overlay::KeybindHelp => OverlayKind::KeybindHelp,
        }
    }
}

/// The overlays, bottom first.
pub struct OverlayStack<I> {
    overlays: Vec<Overlay<I>>,
}

impl<I> OverlayStack<I> {
    /// The overlays, bottom first.
    pub closed spec fn view_seq(&self) -> Seq<Overlay<I>> {
        self.overlays@
    }

    /// No overlay.
    pub fn new() -> (r: Self)
        ensures
            r.view_seq().len() == 0,
    {
        OverlayStack { overlays: Vec::new() }
    }

    /// Puts an overlay on top.
    pub fn push(&mut self, overlay: Overlay<I>)
        ensures
            final(self).view_seq() == old(self).view_seq().push(overlay),
    {
        self.overlays.push(overlay);
    }

    /// Takes the top overlay off.
    pub fn pop(&mut self) -> (r: Option<Overlay<I>>)
        ensures
            old(self).view_seq().len() == 0 ==> r is None && final(self).view_seq() == old(self).view_seq(),
            old(self).view_seq().len() > 0 ==> r == Some(old(self).view_seq().last())
                && final(self).view_seq() == old(self).view_seq().drop_last(),
    {
        self.overlays.pop()
    }

    /// The top overlay.
    pub fn top(&self) -> (r: Option<&Overlay<I>>)
        ensures
            self.view_seq().len() == 0 ==> r is None,
            self.view_seq().len() > 0 ==> r == Some(&self.view_seq().last()),
    {
        if self.overlays.len() == 0 {
            None
        } else {
            Some(&self.overlays[self.overlays.len() - 1])
        }
    }

    /// The number of overlays.
    pub fn len(&self) -> (r: usize)
        ensures
            r == self.view_seq().len(),
    {
        self.overlays.len()
    }

    /// The overlay at `i` from the bottom.
    pub fn get(&self, i: usize) -> (r: Option<&Overlay<I>>)
        ensures
            i < self.view_seq().len() ==> r == Some(&self.view_seq()[i as int]),
            i >= self.view_seq().len() ==> r is None,
    {
        if i < self.overlays.len() {
            Some(&self.overlays[i])
        } else {
            None
        }
    }

    /// Whether an overlay of kind `kind` is open.
    pub fn is_open(&self, kind: OverlayKind) -> (r: bool)
        ensures
            r == has_kind(self.view_seq(), kind),
    {
        let mut i: usize = 0;
        while i < self.overlays.len()
            invariant
                i <= self.overlays@.len(),
                forall|j: int| 0 <= j < i ==> kind_of(#[trigger] self.overlays@[j]) != kind,
            decreases self.overlays@.len() - i,
        {
            if self.overlays[i].kind() == kind {
                return true;
            }
            i += 1;
        }
        false
    }

    /// Closes every overlay of kind `kind`, keeping the others in order.
    pub fn remove_kind(&mut self, kind: OverlayKind)
        ensures
            final(self).view_seq() == without_kind(old(self).view_seq(), kind),
    {
        let mut kept: Vec<Overlay<I>> = Vec::new();
        let mut rest: Vec<Overlay<I>> = Vec::new();
        std::mem::swap(&mut rest, &mut self.overlays);
        let ghost all = rest@;
        assert(all.len() == rest.len());
        let mut i: usize = 0;
        assert(without_kind(all.subrange(0, 0), kind) == kept@);
        assert(all.subrange(0, all.len() as int) == all);
        while rest.len() > 0
            invariant
                i + rest@.len() == all.len(),
                all.len() <= usize::MAX,
                rest@ == all.subrange(i as int, all.len() as int),
                kept@ == without_kind(all.subrange(0, i as int), kind),
            decreases rest@.len(),
        {
            let o = rest.remove(0);
            assert(o == all[i as int]);
            assert(rest@ == all.subrange(i + 1, all.len() as int));
            assert(all.subrange(0, i + 1).drop_last() == all.subrange(0, i as int));
            if o.kind() != kind {
                kept.push(o);
            }
            i += 1;
        }
        assert(all.subrange(0, all.len() as int) == all);
        self.overlays = kept;
    }

    /// Whether the top overlay is of kind `kind`.
    pub fn is_top(&self, kind: OverlayKind) -> (r: bool)
        ensures
            r == (self.view_seq().len() > 0 && kind_of(self.view_seq().last()) == kind),
    {
        match self.top() {
            Some(o) => o.kind() == kind,
            None => false,
        }
    }

    /// Shows a message on top, replacing the message that was on top, if one was.
    pub fn push_message(&mut self, text: String)
        ensures
            final(self).view_seq() == (if old(self).view_seq().len() > 0 && kind_of(old(self).view_seq().last()) == OverlayKind::Message {
                old(self).view_seq().drop_last()
            } else {
                old(self).view_seq()
            }).push(Overlay::Message { text }),
    {
        if self.is_top(OverlayKind::Message) {
            self.overlays.pop();
        }
        self.overlays.push(Overlay::Message { text });
    }

    /// Opens the key binding help, or closes every one that is open.
    pub fn toggle_keybind_help(&mut self)
        ensures
            has_kind(old(self).view_seq(), OverlayKind::KeybindHelp) ==> final(self).view_seq() == without_kind(
                old(self).view_seq(),
                OverlayKind::KeybindHelp,
            ),
            !has_kind(old(self).view_seq(), OverlayKind::KeybindHelp) ==> final(self).view_seq() == old(self).view_seq().push(
                Overlay::KeybindHelp,
            ),
    {
        if self.is_open(OverlayKind::KeybindHelp) {
            self.remove_kind(OverlayKind::KeybindHelp);
        } else {
            self.overlays.push(Overlay::KeybindHelp);
        }
    }

    /// Shows the help of a two-key command on top, unless it is already on top.
    pub fn show_prefix_help(&mut self)
        ensures
            final(self).view_seq() == (if old(self).view_seq().len() > 0 && kind_of(old(self).view_seq().last()) == OverlayKind::PrefixHelp {
                old(self).view_seq()
            } else {
                old(self).view_seq().push(Overlay::PrefixHelp)
            }),
    {
        if !self.is_top(OverlayKind::PrefixHelp) {
            self.overlays.push(Overlay::PrefixHelp);
        }
    }

    /// Closes the help of a two-key command if it is on top.
    pub fn hide_prefix_help(&mut self)
        ensures
            final(self).view_seq() == (if old(self).view_seq().len() > 0 && kind_of(old(self).view_seq().last()) == OverlayKind::PrefixHelp {
                old(self).view_seq().drop_last()
            } else {
                old(self).view_seq()
            }),
    {
        if self.is_top(OverlayKind::PrefixHelp) {
            self.overlays.pop();
        }
    }

    /// Esc closes the key binding help where it is open (returns `true`); else it is left to
    /// the other handlers.
    pub fn close_keybind_help(&mut self) -> (r: bool)
        ensures
            r == has_kind(old(self).view_seq(), OverlayKind::KeybindHelp),
            r ==> final(self).view_seq() == without_kind(old(self).view_seq(), OverlayKind::KeybindHelp),
            !r ==> final(self).view_seq() == old(self).view_seq(),
    {
        if self.is_open(OverlayKind::KeybindHelp) {
            self.remove_kind(OverlayKind::KeybindHelp);
            true
        } else {
            false
        }
    }
}

/// After removing a kind, no overlay of that kind is left.
pub proof fn lemma_removed_kind_closed<I>(s: Seq<Overlay<I>>, k: OverlayKind)
    ensures
        !has_kind(without_kind(s, k), k),
    decreases s.len(),
{
    if s.len() > 0 {
        lemma_removed_kind_closed(s.drop_last(), k);
        let w = without_kind(s.drop_last(), k);
        if kind_of(s.last()) != k {
            assert forall|i: int| 0 <= i < w.push(s.last()).len() implies kind_of(#[trigger] w.push(s.last())[i]) != k by {
                if i < w.len() {
                    assert(w.push(s.last())[i] == w[i]);
                }
            }
        }
    }
}

} // verus!
