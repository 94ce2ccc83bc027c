//! Keyboard navigation inside an open menu tree. The deepest open menu holds the keyboard focus:
//! Up and Down move the focus, Right opens the focused submenu (or steps to the next root from the
//! top menu), Left closes the current submenu (or steps to the previous root), Enter and Space
//! activate the focused entry, and Escape closes one level.

use vstd::prelude::*;
use crate::bar::to_index;
use crate::keys::{Key, KeyAction, key_action, spec_key_action};
use crate::model::{MenuBarView, level_wf};
use crate::navigation::{spec_next_navigable, next_navigable, first_navigable};
use crate::item::ItemSpec;
use crate::state::{Effects, GlobalParameters, GlobalState, MenuBarState};

verus! {

/// The result of a navigation command at the focused menu.
#[derive(Debug, Clone, Copy, PartialEq, Eq, Structural)]
pub enum KeyOutcome {
    /// The key was not consumed.
    Unhandled,
    /// The key was consumed.
    Handled,
    /// Close just the focused menu.
    CloseLevel,
    /// Close the entire menu tree (an entry was activated under a close-on-click policy).
    CloseAll,
    /// Move to the adjacent root menu, forward (`true`) or backward.
    SwitchRoot(bool),
}

/// An entry of a menu, by its level along the open path and its index in that menu.
#[derive(Debug, Clone, Copy, PartialEq, Eq, Structural)]
pub struct EntryRef {
    pub level: usize,
    pub index: usize,
}

/// What the widget has to carry out after a key press inside the open tree.
#[derive(Debug, Clone, Copy, PartialEq, Eq, Structural)]
pub struct KeyResult {
    /// Whether the key was consumed (it is then captured and a redraw requested).
    pub consumed: bool,
    pub effects: Effects,
    /// A click to synthesize on an entry, given as its level and index along the open path as it
    /// was before the key press.
    pub click: Option<EntryRef>,
}

impl Effects {
    /// Both sets of effects.
    pub open spec fn merge(self, other: Effects) -> Effects {
        Effects {
            invalidate_layout: self.invalidate_layout || other.invalidate_layout,
            request_redraw: self.request_redraw || other.request_redraw,
            capture_event: self.capture_event || other.capture_event,
            close_menus: self.close_menus || other.close_menus,
            fresh_from: match self.fresh_from {
                Some(a) => match other.fresh_from {
                    Some(b) => if a <= b {
                        Some(a)
                    } else {
                        Some(b)
                    },
                    None => Some(a),
                },
                None => other.fresh_from,
            },
        }
    }

    pub open spec fn layout_redraw(fresh_from: Option<usize>) -> Effects {
        Effects { invalidate_layout: true, request_redraw: true, fresh_from, ..Effects::spec_none() }
    }

    pub open spec fn redraw() -> Effects {
        Effects { request_redraw: true, ..Effects::spec_none() }
    }
}

/// Merges two sets of effects.
pub fn merge(a: Effects, b: Effects) -> (r: Effects)
    ensures
        r == a.merge(b),
{
    Effects {
        invalidate_layout: a.invalidate_layout || b.invalidate_layout,
        request_redraw: a.request_redraw || b.request_redraw,
        capture_event: a.capture_event || b.capture_event,
        close_menus: a.close_menus || b.close_menus,
        fresh_from: match a.fresh_from {
            Some(x) => match b.fresh_from {
                Some(y) => if x <= y {
                    Some(x)
                } else {
                    Some(y)
                },
                None => Some(x),
            },
            None => b.fresh_from,
        },
    }
}

/// Stepping through the visible roots `[lo, hi]`, wrapping around, starting after `cur`: the
/// first root reached within `remaining` steps that carries a menu.
pub open spec fn switch_scan(roots: Seq<ItemSpec>, lo: int, hi: int, cur: int, forward: bool, remaining: int) -> Option<int>
    decreases remaining,
{
    if remaining <= 0 {
        None
    } else {
        let next = if forward {
            if cur >= hi {
                lo
            } else {
                cur + 1
            }
        } else {
            if cur <= lo {
                hi
            } else {
                cur - 1
            }
        };
        if roots[next].has_menu() {
            Some(next)
        } else {
            switch_scan(roots, lo, hi, next, forward, remaining - 1)
        }
    }
}

proof fn lemma_switch_scan_bounds(roots: Seq<ItemSpec>, lo: int, hi: int, cur: int, forward: bool, remaining: int)
    requires
        0 <= lo <= hi < roots.len(),
        0 <= cur < roots.len(),
    ensures
        switch_scan(roots, lo, hi, cur, forward, remaining) matches Some(t) ==> 0 <= t < roots.len()
            && roots[t].has_menu(),
    decreases remaining,
{
    if remaining > 0 {
        let next = if forward {
            if cur >= hi {
                lo
            } else {
                cur + 1
            }
        } else {
            if cur <= lo {
                hi
            } else {
                cur - 1
            }
        };
        lemma_switch_scan_bounds(roots, lo, hi, next, forward, remaining - 1);
    }
}

impl MenuBarView {
    /// Opens the submenu of the focused entry `i` of level `d`; the focus stays on `i` and the
    /// submenu's first navigable entry receives the focus inside it.
    pub open spec fn open_child(self, d: int, i: int) -> MenuBarView {
        let o = self.open_at(d, i).with_highlight(d, Some(i as usize));
        if self.items(d)[i].opens() {
            o.with_highlight(d + 1, to_index(spec_next_navigable(self.items(d)[i].menu_items(), None, true)))
        } else {
            o
        }
    }

    /// A navigation command at the focused (deepest) level `d`, given how many entries the
    /// layout of that menu's visible slice holds.
    pub open spec fn act_at(self, d: int, action: KeyAction, slice_len: int, params: GlobalParameters)
        -> (MenuBarView, KeyOutcome, Effects, Option<EntryRef>)
    {
        let items = self.items(d);
        let st = self.levels[d];
        let is_top = d == 1;
        let depth = self.levels.len();
        let fresh = |i: int| if items[i].opens() {
            Some((d + 1) as usize)
        } else {
            None
        };
        match action {
            KeyAction::Down | KeyAction::Up => {
                let forward = action == KeyAction::Down;
                match spec_next_navigable(items, st.keyboard_highlight, forward) {
                    Some(n) => (
                        self.with_highlight(d, Some(n as usize)),
                        KeyOutcome::Handled,
                        Effects::redraw(),
                        None,
                    ),
                    None => (self, KeyOutcome::Handled, Effects::spec_none(), None),
                }
            },
            KeyAction::Right => match st.keyboard_highlight {
                Some(i) if items[i as int].has_menu() => (
                    self.open_child(d, i as int),
                    KeyOutcome::Handled,
                    Effects::layout_redraw(fresh(i as int)),
                    None,
                ),
                _ => if is_top {
                    (self, KeyOutcome::SwitchRoot(true), Effects::spec_none(), None)
                } else {
                    (self, KeyOutcome::Handled, Effects::spec_none(), None)
                },
            },
            KeyAction::Left => if is_top {
                (self, KeyOutcome::SwitchRoot(false), Effects::spec_none(), None)
            } else {
                (self, KeyOutcome::CloseLevel, Effects::spec_none(), None)
            },
            KeyAction::Escape => (self, KeyOutcome::CloseLevel, Effects::spec_none(), None),
            KeyAction::Activate => match st.keyboard_highlight {
                None => (self, KeyOutcome::Handled, Effects::spec_none(), None),
                Some(i) => if items[i as int].has_menu() {
                    (self.open_child(d, i as int), KeyOutcome::Handled, Effects::layout_redraw(fresh(i as int)), None)
                } else if i < st.slice.start_index || i > st.slice.end_index || i - st.slice.start_index >= slice_len {
                    (self, KeyOutcome::Handled, Effects::spec_none(), None)
                } else {
                    let close = match items[i as int].close_on_click {
                        Some(c) => c,
                        None => params.close_on_item_click,
                    };
                    (
                        self,
                        if close {
                            KeyOutcome::CloseAll
                        } else {
                            KeyOutcome::Handled
                        },
                        Effects::spec_none(),
                        Some(EntryRef { level: d as usize, index: i }),
                    )
                },
            },
        }
    }

    /// Moves the open tree to the adjacent root with a menu, within the visible roots: the
    /// current root's menu closes, and the new one opens with the focus on its first navigable
    /// entry.
    pub open spec fn switch_root(self, forward: bool) -> (MenuBarView, Effects) {
        let n = self.roots.len();
        let slice = self.levels[0].slice;
        let lo = if slice.start_index < n - 1 {
            slice.start_index as int
        } else {
            n - 1
        };
        let hi = if slice.end_index < n - 1 {
            slice.end_index as int
        } else {
            n - 1
        };
        let released = self.release_bar();
        match switch_scan(self.roots, lo, hi, self.levels[0].active.unwrap() as int, forward, hi - lo + 1) {
            Some(t) => {
                let o = released.open_at(0, t);
                if self.roots[t].opens() {
                    (
                        o.with_highlight(1, to_index(spec_next_navigable(self.roots[t].menu_items(), None, true))),
                        Effects::layout_redraw(Some(1)),
                    )
                } else {
                    (o, Effects::layout_redraw(None))
                }
            },
            None => (released, Effects::layout_redraw(None)),
        }
    }

    /// A key press while the menu tree is open, given, for each menu of the current layout in
    /// order, how many entries its visible slice holds.
    pub open spec fn after_key(self, key: Key, layouts: Seq<usize>, params: GlobalParameters) -> (MenuBarView, KeyResult) {
        let not_consumed = KeyResult { consumed: false, effects: Effects::spec_none(), click: None };
        let consumed = |e: Effects, click: Option<EntryRef>| KeyResult {
            consumed: true,
            effects: Effects { capture_event: true, request_redraw: true, ..e },
            click,
        };
        match spec_key_action(key) {
            None => (self, not_consumed),
            Some(action) => if !self.global.open || self.levels.len() < 2 {
                (self, not_consumed)
            } else {
                let v1 = self.with_global(GlobalState { keyboard_nav: true, ..self.global });
                let d = self.levels.len() - 1;
                if layouts.len() < d {
                    (v1, not_consumed)
                } else {
                    let (v2, out, e, click) = v1.act_at(d, action, layouts[d - 1] as int, params);
                    match out {
                        KeyOutcome::Unhandled => (v2, not_consumed),
                        KeyOutcome::Handled => (v2, consumed(e, click)),
                        KeyOutcome::CloseLevel => if d > 1 {
                            let a = v2.levels[d - 1].active;
                            (
                                v2.close_level(d).with_highlight(d - 1, a),
                                consumed(e.merge(Effects::layout_redraw(None)), click),
                            )
                        } else {
                            (v2.close_all(), consumed(e.merge(v2.close_effects()), click))
                        },
                        KeyOutcome::CloseAll => (v2.close_all(), consumed(e.merge(v2.close_effects()), click)),
                        KeyOutcome::SwitchRoot(forward) => {
                            let (v3, e3) = v2.switch_root(forward);
                            (v3, consumed(e.merge(e3), click))
                        },
                    }
                }
            },
        }
    }

    /// What closing the whole tree asks of the widget.
    pub open spec fn close_effects(self) -> Effects {
        if self.global.pressed {
            Effects::spec_none()
        } else {
            Effects { close_menus: true, request_redraw: true, ..Effects::spec_none() }
        }
    }
}

impl MenuBarState {
    /// Opens the submenu of the focused entry `i` of level `d`, as `open_child` describes;
    /// returns whether a menu opened.
    fn open_child(&mut self, d: usize, i: usize) -> (r: bool)
        requires
            old(self)@.wf(),
            d < old(self)@.levels.len(),
            i < old(self)@.items(d as int).len(),
            old(self)@.global.open,
        ensures
            final(self)@ == old(self)@.open_child(d as int, i as int),
            final(self)@.wf(),
            r == old(self)@.items(d as int)[i as int].opens(),
    {
        let ghost v0 = self@;
        let opened = self.open_at(d, i);
        proof {
            crate::model::lemma_items_at_prefix(v0.roots, v0.levels, self@.levels, d as int);
        }
        self.set_highlight(d, Some(i));
        if opened {
            let ghost v1 = self@;
            proof {
                crate::model::lemma_items_at_prefix(v0.roots, v0.levels, v1.levels, d as int);
                assert(v1.items(d as int + 1) == v0.items(d as int)[i as int].menu_items());
            }
            let first = {
                let items = self.items(d);
                match &items[i].submenu {
                    Some(sub) => first_navigable(sub),
                    None => None,
                }
            };
            let depth = self.levels.len();
            self.set_highlight(depth - 1, first);
        }
        opened
    }

    /// Carries out a navigation command at the focused level `d`, as `act_at` describes.
    fn act_at(&mut self, d: usize, action: KeyAction, slice_len: usize, params: &GlobalParameters) -> (r: (
        KeyOutcome,
        Effects,
        Option<EntryRef>,
    ))
        requires
            old(self)@.wf(),
            1 <= d,
            d + 1 == old(self)@.levels.len(),
            old(self)@.global.open,
        ensures
            (final(self)@, r.0, r.1, r.2) == old(self)@.act_at(d as int, action, slice_len as int, *params),
            final(self)@.wf(),
            final(self)@.global.open,
            final(self)@.levels.len() >= d + 1,
            r.0 is CloseLevel ==> final(self)@ == old(self)@,
            r.0 is SwitchRoot ==> final(self)@ == old(self)@ && d == 1,
    {
        let st = self.levels[d];
        let is_top = d == 1;
        let depth = self.levels.len();
        proof {
            assert(level_wf(self@.roots, self@.levels, d as int));
        }
        match action {
            KeyAction::Down | KeyAction::Up => {
                let forward = match action {
                    KeyAction::Down => true,
                    _ => false,
                };
                let target = {
                    let items = self.items(d);
                    next_navigable(items, st.keyboard_highlight, forward)
                };
                match target {
                    Some(n) => {
                        self.set_highlight(d, Some(n));
                        (KeyOutcome::Handled, Effects { request_redraw: true, ..Effects::none() }, None)
                    },
                    None => (KeyOutcome::Handled, Effects::none(), None),
                }
            },
            KeyAction::Right => {
                let focused_menu = match st.keyboard_highlight {
                    Some(i) => {
                        let items = self.items(d);
                        if items[i].has_submenu() {
                            Some(i)
                        } else {
                            None
                        }
                    },
                    None => None,
                };
                match focused_menu {
                    Some(i) => {
                        let opened = self.open_child(d, i);
                        let fresh_from = if opened {
                            Some(d + 1)
                        } else {
                            None
                        };
                        (
                            KeyOutcome::Handled,
                            Effects { invalidate_layout: true, request_redraw: true, fresh_from, ..Effects::none() },
                            None,
                        )
                    },
                    None => if is_top {
                        (KeyOutcome::SwitchRoot(true), Effects::none(), None)
                    } else {
                        (KeyOutcome::Handled, Effects::none(), None)
                    },
                }
            },
            KeyAction::Left => if is_top {
                (KeyOutcome::SwitchRoot(false), Effects::none(), None)
            } else {
                (KeyOutcome::CloseLevel, Effects::none(), None)
            },
            KeyAction::Escape => (KeyOutcome::CloseLevel, Effects::none(), None),
            KeyAction::Activate => match st.keyboard_highlight {
                None => (KeyOutcome::Handled, Effects::none(), None),
                Some(i) => {
                    let (has_menu, closes) = {
                        let items = self.items(d);
                        (items[i].has_submenu(), items[i].closes_on_click(params.close_on_item_click))
                    };
                    if has_menu {
                        let opened = self.open_child(d, i);
                        let fresh_from = if opened {
                            Some(d + 1)
                        } else {
                            None
                        };
                        (
                            KeyOutcome::Handled,
                            Effects { invalidate_layout: true, request_redraw: true, fresh_from, ..Effects::none() },
                            None,
                        )
                    } else if i < st.slice.start_index || i > st.slice.end_index || i - st.slice.start_index
                        >= slice_len {
                        (KeyOutcome::Handled, Effects::none(), None)
                    } else {
                        let outcome = if closes {
                            KeyOutcome::CloseAll
                        } else {
                            KeyOutcome::Handled
                        };
                        (outcome, Effects::none(), Some(EntryRef { level: d, index: i }))
                    }
                },
            },
        }
    }

    /// Moves the open tree to the adjacent root with a menu, as `switch_root` describes.
    fn switch_root(&mut self, forward: bool) -> (r: Effects)
        requires
            old(self)@.wf(),
            old(self)@.levels.len() >= 2,
            old(self)@.global.open,
        ensures
            (final(self)@, r) == old(self)@.switch_root(forward),
            final(self)@.wf(),
    {
        let ghost v0 = self@;
        proof {
            assert(level_wf(v0.roots, v0.levels, 0));
        }
        let n = self.roots.len();
        let slice = self.levels[0].slice;
        let active_root = self.levels[0].active.unwrap();
        let lo = if slice.start_index < n - 1 {
            slice.start_index
        } else {
            n - 1
        };
        let hi = if slice.end_index < n - 1 {
            slice.end_index
        } else {
            n - 1
        };
        let span = hi - lo + 1;
        self.release_bar();
        let mut cur = active_root;
        let mut remaining = span;
        let mut target: Option<usize> = None;
        proof {
            lemma_switch_scan_bounds(v0.roots, lo as int, hi as int, active_root as int, forward, span as int);
        }
        while remaining > 0 && target.is_none()
            invariant
                n == self.roots.len(),
                self@.roots == v0.roots,
                0 <= lo <= hi < n,
                0 <= cur < n,
                remaining <= span,
                match target {
                    Some(t) => switch_scan(v0.roots, lo as int, hi as int, active_root as int, forward, span as int)
                        == Some(t as int) && t < n,
                    None => switch_scan(v0.roots, lo as int, hi as int, active_root as int, forward, span as int)
                        == switch_scan(v0.roots, lo as int, hi as int, cur as int, forward, remaining as int),
                },
            decreases remaining as int + if target is None {
                1int
            } else {
                0int
            },
        {
            let next = if forward {
                if cur >= hi {
                    lo
                } else {
                    cur + 1
                }
            } else {
                if cur <= lo {
                    hi
                } else {
                    cur - 1
                }
            };
            if self.roots[next].has_submenu() {
                target = Some(next);
            } else {
                cur = next;
                remaining = remaining - 1;
            }
        }
        match target {
            Some(t) => {
                let ghost v1 = self@;
                let opened = self.open_at(0, t);
                if opened {
                    let first = match &self.roots[t].submenu {
                        Some(sub) => first_navigable(sub),
                        None => None,
                    };
                    proof {
                        assert(self@.items(0) == self@.roots);
                        assert(self@.items(1) == v1.roots[t as int].menu_items());
                    }
                    self.set_highlight(1, first);
                    Effects {
                        invalidate_layout: true,
                        request_redraw: true,
                        capture_event: false,
                        close_menus: false,
                        fresh_from: Some(1),
                    }
                } else {
                    Effects {
                        invalidate_layout: true,
                        request_redraw: true,
                        capture_event: false,
                        close_menus: false,
                        fresh_from: None,
                    }
                }
            },
            None => Effects {
                invalidate_layout: true,
                request_redraw: true,
                capture_event: false,
                close_menus: false,
                fresh_from: None,
            },
        }
    }

    /// Handles a key press while the menu tree is open, as `after_key` describes. `layouts`
    /// gives, for each menu of the current layout in order, how many entries its visible slice
    /// holds.
    pub fn handle_key(&mut self, key: Key, layouts: &Vec<usize>, params: &GlobalParameters) -> (r: KeyResult)
        requires
            old(self)@.wf(),
        ensures
            (final(self)@, r) == old(self)@.after_key(key, layouts@, *params),
            final(self)@.wf(),
    {
        let not_consumed = KeyResult { consumed: false, effects: Effects::none(), click: None };
        let action = match key_action(key) {
            Some(a) => a,
            None => return not_consumed,
        };
        if !self.global_state.open || self.levels.len() < 2 {
            return not_consumed;
        }
        self.global_state.keyboard_nav = true;
        let d = self.levels.len() - 1;
        if layouts.len() < d {
            return not_consumed;
        }
        let (out, e, click) = self.act_at(d, action, layouts[d - 1], params);
        let finish = |e: Effects, click: Option<EntryRef>| -> (k: KeyResult)
            ensures
                k == (KeyResult {
                    consumed: true,
                    effects: Effects { capture_event: true, request_redraw: true, ..e },
                    click,
                }),
            {
                KeyResult { consumed: true, effects: Effects { capture_event: true, request_redraw: true, ..e }, click }
            };
        match out {
            KeyOutcome::Unhandled => not_consumed,
            KeyOutcome::Handled => finish(e, click),
            KeyOutcome::CloseLevel => {
                if d > 1 {
                    let a = self.levels[d - 1].active;
                    proof {
                        assert(level_wf(self@.roots, self@.levels, d - 1));
                    }
                    let ghost v2 = self@;
                    self.close_level(d);
                    proof {
                        crate::model::lemma_items_at_prefix(v2.roots, v2.levels, self@.levels, d - 1);
                    }
                    self.set_highlight(d - 1, a);
                    finish(
                        merge(e, Effects { invalidate_layout: true, request_redraw: true, ..Effects::none() }),
                        click,
                    )
                } else {
                    let c = self.close();
                    finish(merge(e, c), click)
                }
            },
            KeyOutcome::CloseAll => {
                let c = self.close();
                finish(merge(e, c), click)
            },
            KeyOutcome::SwitchRoot(forward) => {
                let e3 = self.switch_root(forward);
                finish(merge(e, e3), click)
            },
        }
    }
}

} // verus!
