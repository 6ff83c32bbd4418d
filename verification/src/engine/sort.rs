//! How a listing is ordered: the sort key and the direction.

use vstd::prelude::*;

verus! {

/// The key by which a listing is sorted.
#[derive(Debug, Clone, Copy, PartialEq, Eq, Structural, Hash)]
pub enum SortMode {
    Name,
    Modified,
    Created,
    Accessed,
    Size,
    Extension,
    Natural,
}

/// The direction of a sort.
#[derive(Debug, Clone, Copy, PartialEq, Eq, Structural, Hash)]
pub enum SortOrder {
    Ascending,
    Descending,
}

/// The other direction.
pub open spec fn flipped(o: SortOrder) -> SortOrder {
    match o {
        SortOrder::Ascending => SortOrder::Descending,
        SortOrder::Descending => SortOrder::Ascending,
    }
}

impl SortOrder {
    /// The other direction.
    pub fn toggle(self) -> (r: Self)
        ensures
            r == flipped(self),
    {
        match self {
            SortOrder::Ascending => SortOrder::Descending,
            SortOrder::Descending => SortOrder::Ascending,
        }
    }
}

/// Toggling a direction twice gives it back, and toggling always changes it.
pub proof fn lemma_toggle_involutive(o: SortOrder)
    ensures
        flipped(flipped(o)) == o,
        flipped(o) != o,
{
}

/// A sort key with a direction.
#[derive(Debug, Clone, Copy, PartialEq, Eq, Structural, Hash)]
pub struct SortConfig {
    mode: SortMode,
    order: SortOrder,
}

impl SortConfig {
    /// The sort key.
    pub closed spec fn mode_view(&self) -> SortMode {
        self.mode
    }

    /// The direction.
    pub closed spec fn order_view(&self) -> SortOrder {
        self.order
    }

    /// Natural order, ascending.
    pub fn new() -> (r: Self)
        ensures
            r.mode_view() == SortMode::Natural,
            r.order_view() == SortOrder::Ascending,
    {
        SortConfig { mode: SortMode::Natural, order: SortOrder::Ascending }
    }

    /// A configuration from a key and a direction.
    pub fn from_parts(mode: SortMode, order: SortOrder) -> (r: Self)
        ensures
            r.mode_view() == mode,
            r.order_view() == order,
    {
        SortConfig { mode, order }
    }

    /// The sort key.
    pub fn mode(&self) -> (r: SortMode)
        ensures
            r == self.mode_view(),
    {
        self.mode
    }

    /// The direction.
    pub fn order(&self) -> (r: SortOrder)
        ensures
            r == self.order_view(),
    {
        self.order
    }

    /// Sets the sort key.
    pub fn set_mode(&mut self, mode: SortMode)
        ensures
            final(self).mode_view() == mode,
            final(self).order_view() == old(self).order_view(),
    {
        self.mode = mode;
    }

    /// Chooses the sort key `mode`: choosing the current key again flips the direction,
    /// another key keeps it.
    pub fn select_mode(&mut self, mode: SortMode)
        ensures
            final(self).mode_view() == mode,
            old(self).mode_view() == mode ==> final(self).order_view() == flipped(old(self).order_view()),
            old(self).mode_view() != mode ==> final(self).order_view() == old(self).order_view(),
    {
        if self.mode == mode {
            self.order = self.order.toggle();
        } else {
            self.mode = mode;
        }
    }

    /// Sets the direction.
    pub fn set_order(&mut self, order: SortOrder)
        ensures
            final(self).order_view() == order,
            final(self).mode_view() == old(self).mode_view(),
    {
        self.order = order;
    }
}

impl Default for SortConfig {
    fn default() -> (r: Self)
        ensures
            r.mode_view() == SortMode::Natural,
            r.order_view() == SortOrder::Ascending,
    {
        SortConfig::new()
    }
}

} // verus!
