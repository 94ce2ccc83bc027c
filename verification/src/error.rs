//! Errors of the public API.

use vstd::prelude::*;

verus! {

/// Errors that can occur while constructing a menu bar or one of its menus.
#[derive(Debug, Clone, Copy, PartialEq, Eq, Structural)]
pub enum Error {
    /// A menu or menu bar was created without any items.
    EmptyMenu,
}

impl Error {
    /// The human-readable description of the error.
    pub fn message(&self) -> (r: &'static str)
        ensures
            r@ == "a menu must contain at least one item"@,
    {
        "a menu must contain at least one item"
    }
}

} // verus!
