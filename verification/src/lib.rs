//! The state machine behind a menu bar with nested dropdown menus.
//!
//! The bar shows a row of root entries; each entry may open a dropdown menu whose entries may in
//! turn open nested submenus. This crate holds the part of such a widget that decides things:
//! which menus are open, which entry the keyboard focus sits on, when a click dismisses the menus,
//! and how keyboard navigation moves through the open path. Geometry and drawing are left to the
//! embedding widget, which hands the decisions plain facts (such as whether the cursor is over a
//! given entry) and carries out the actions they return.

pub mod bar;
pub mod common;
pub mod error;
pub mod item;
pub mod keyboard;
pub mod keys;
pub mod laws;
pub mod model;
pub mod navigation;
pub mod overlay;
pub mod state;
pub mod style;
