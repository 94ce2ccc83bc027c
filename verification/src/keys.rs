//! The keys the menu bar reacts to and the navigation commands they stand for.

use vstd::prelude::*;

verus! {

/// A key press, reduced to the keys that take part in menu navigation.
#[derive(Debug, Clone, Copy, PartialEq, Eq, Structural)]
pub enum Key {
    ArrowUp,
    ArrowDown,
    ArrowLeft,
    ArrowRight,
    Enter,
    Space,
    Escape,
    Alt,
    F10,
    /// Any other key.
    Other,
}

/// A keyboard navigation command inside an open menu tree.
#[derive(Debug, Clone, Copy, PartialEq, Eq, Structural)]
pub enum KeyAction {
    Down,
    Up,
    Left,
    Right,
    Activate,
    Escape,
}

/// The navigation command a key press stands for while a menu tree is open: the arrows move,
/// Enter and Space activate, Escape closes a level; other keys are not navigation.
pub open spec fn spec_key_action(key: Key) -> Option<KeyAction> {
    match key {
        Key::ArrowDown => Some(KeyAction::Down),
        Key::ArrowUp => Some(KeyAction::Up),
        Key::ArrowRight => Some(KeyAction::Right),
        Key::ArrowLeft => Some(KeyAction::Left),
        Key::Enter | Key::Space => Some(KeyAction::Activate),
        Key::Escape => Some(KeyAction::Escape),
        _ => None,
    }
}

/// The navigation command a key press stands for while a menu tree is open.
pub fn key_action(key: Key) -> (r: Option<KeyAction>)
    ensures
        r == spec_key_action(key),
{
    match key {
        Key::ArrowDown => Some(KeyAction::Down),
        Key::ArrowUp => Some(KeyAction::Up),
        Key::ArrowRight => Some(KeyAction::Right),
        Key::ArrowLeft => Some(KeyAction::Left),
        Key::Enter | Key::Space => Some(KeyAction::Activate),
        Key::Escape => Some(KeyAction::Escape),
        _ => None,
    }
}

} // verus!
