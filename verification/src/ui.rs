//! Small interface-facing types: which style of HUD the info widget shows,
//! and the random identifiers that GUI elements are registered under.

use vstd::prelude::*;

use crate::rng::rand_bits;

verus! {

/// How the info widget is drawn: as an immediate-mode window, as a plain
/// text overlay, or not at all.
#[derive(PartialEq, Eq, Structural, Clone, Copy, Debug)]
pub enum InfoKind {
    Egui,
    Overlay,
    Hidden,
}

/// The state the widget follows `k` in the display cycle.
pub open spec fn next_kind_spec(k: InfoKind) -> InfoKind {
    match k {
        InfoKind::Overlay => InfoKind::Hidden,
        InfoKind::Hidden => InfoKind::Egui,
        InfoKind::Egui => InfoKind::Overlay,
    }
}

impl InfoKind {
    /// Cycle to the next display style: overlay, hidden, immediate-mode,
    /// and around again.
    pub fn next(&mut self)
        ensures
            *final(self) == next_kind_spec(*old(self)),
    {
        *self = match self {
            InfoKind::Overlay => InfoKind::Hidden,
            InfoKind::Hidden => InfoKind::Egui,
            InfoKind::Egui => InfoKind::Overlay,
        };
    }

}

impl Default for InfoKind {
    /// The style a fresh widget starts with.
    fn default() -> (k: InfoKind)
        ensures
            k == InfoKind::Overlay,
    {
        InfoKind::Overlay
    }
}

/// A random 128-bit identifier for a GUI element; the key space is large
/// enough that fresh draws practically never collide.
#[derive(PartialEq, Eq, Structural, Clone, Copy, Debug, Hash)]
pub struct GElementID {
    pub inner: u128,
}

impl GElementID {
    /// A freshly drawn identifier.
    pub fn new() -> GElementID {
        GElementID { inner: rand_bits() }
    }
}

} // verus!
