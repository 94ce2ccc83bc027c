//! The status a menu bar is drawn in.

use vstd::prelude::*;

verus! {

/// The status of a menu bar / menu entry, passed to the style function.
#[derive(Debug, Clone, Copy, PartialEq, Eq, Structural)]
pub enum Status {
    /// Can be pressed.
    Active,
    /// Can be pressed and is being hovered.
    Hovered,
    /// Is being pressed.
    Pressed,
    /// Cannot be pressed.
    Disabled,
    /// Is focused.
    Focused,
    /// Is selected.
    Selected,
}

} // verus!
