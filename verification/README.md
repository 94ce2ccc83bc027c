# iced_menu_bar

A menu bar with nested dropdown menus for [iced](https://github.com/iced-rs/iced), whose
decisions are proved correct with Verus.

## Layout

- `src/` — the verified library: the state machine of the menu bar. It decides which menus are
  open, where the keyboard focus sits, when a click dismisses the menus, how keyboard navigation
  moves through the open path, and which part of a long list of entries is visible. It holds no
  floating point and no iced types: the widget hands it plain facts (is the cursor over this
  entry, over this menu, inside its safe area) and carries out the effects it returns.
  - `state.rs`, `model.rs` — the state, its mathematical view and its well-formedness.
  - `bar.rs` — events on the bar itself, requests from outside, keyboard activation of the bar.
  - `overlay.rs` — the open menus' decisions, from the deepest menu upwards.
  - `keyboard.rs`, `keys.rs`, `navigation.rs` — keyboard navigation inside the open tree.
  - `common.rs` — the visible slice of a list (a verified binary search) and small shared types.
  - `laws.rs` — properties that span several operations.
- `tests/` — tests of the library on concrete states.
- `app/` — the iced widget around the library: layout, drawing, styling, the overlay, and the
  floating-point geometry that produces the facts the library decides on.
