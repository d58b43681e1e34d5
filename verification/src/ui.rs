//! Presentation-facing values the core hands to an embedding shell.

use vstd::prelude::*;

verus! {

/// Where a popup overlay is anchored on the screen.
#[derive(Clone, Copy, Debug, PartialEq, Eq, Structural)]
pub enum PopupPosition {
    Center,
    Bottom,
    BottomLeft,
}

} // verus!
