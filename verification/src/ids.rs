//! Typed pane and tab identifiers.

use vstd::prelude::*;

verus! {

/// The id of a pane.
#[derive(Debug, Clone, Copy, PartialEq, Eq, PartialOrd, Ord, Hash, Structural)]
pub struct PaneId(usize);

impl View for PaneId {
    type V = usize;

    closed spec fn view(&self) -> usize {
        self.0
    }
}

impl PaneId {
    /// The pane id with the given number.
    pub fn new(value: usize) -> (r: Self)
        ensures
            r@ == value,
    {
        PaneId(value)
    }

    /// The number of this id.
    pub fn as_usize(self) -> (r: usize)
        ensures
            r == self@,
    {
        self.0
    }
}

/// The id of a tab (window).
#[derive(Debug, Clone, Copy, PartialEq, Eq, PartialOrd, Ord, Hash, Structural)]
pub struct TabId(usize);

impl View for TabId {
    type V = usize;

    closed spec fn view(&self) -> usize {
        self.0
    }
}

impl TabId {
    /// The tab id with the given number.
    pub fn new(value: usize) -> (r: Self)
        ensures
            r@ == value,
    {
        TabId(value)
    }

    /// The number of this id.
    pub fn as_usize(self) -> (r: usize)
        ensures
            r == self@,
    {
        self.0
    }
}

} // verus!
