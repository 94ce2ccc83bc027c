//! The abstract view of the menu bar's state: the entries of the bar and their menus, and the
//! path of menus that is currently open. Contracts of the state machine are stated over it.

use vstd::prelude::*;
use crate::common::MenuSlice;
use crate::item::ItemSpec;
use crate::state::{Effects, GlobalParameters, GlobalState, MenuBarTask, MenuState};

verus! {

/// The abstract state of a menu bar.
///
/// `levels[0]` is the state of the bar itself; `levels[k]` for `k >= 1` is the state of the
/// `k`-th menu along the open path, the one opened by the entry `levels[k - 1].active` of the
/// level before it.
pub struct MenuBarView {
    pub global: GlobalState,
    pub roots: Seq<ItemSpec>,
    pub levels: Seq<MenuState>,
}

/// The entries shown at level `k` of the open path: the bar's roots at level 0, and at every
/// further level the submenu of the entry that is active one level up.
pub open spec fn items_at(roots: Seq<ItemSpec>, levels: Seq<MenuState>, k: int) -> Seq<ItemSpec>
    decreases k,
{
    if k <= 0 {
        roots
    } else {
        let prev = items_at(roots, levels, k - 1);
        match levels[k - 1].active {
            Some(a) => if a < prev.len() {
                prev[a as int].menu_items()
            } else {
                Seq::empty()
            },
            None => Seq::empty(),
        }
    }
}

/// Level `k` of the open path is consistent: every level but the last has an active entry that
/// opens the next level, the last has none, the keyboard focus points at an existing entry, and
/// the visible slice is usable.
pub open spec fn level_wf(roots: Seq<ItemSpec>, levels: Seq<MenuState>, k: int) -> bool {
    let items = items_at(roots, levels, k);
    &&& (k + 1 < levels.len() ==> (levels[k].active matches Some(a) && a < items.len()
        && items[a as int].opens()))
    &&& (k + 1 == levels.len() ==> levels[k].active is None)
    &&& (levels[k].keyboard_highlight matches Some(h) ==> h < items.len())
    &&& levels[k].slice.wf()
}

/// Level `k` has an active entry whose submenu is non-empty.
pub open spec fn active_valid(roots: Seq<ItemSpec>, levels: Seq<MenuState>, k: int) -> bool {
    let items = items_at(roots, levels, k);
    levels[k].active matches Some(a) && a < items.len() && items[a as int].opens()
}

/// The whole open path is consistent.
pub open spec fn path_wf(roots: Seq<ItemSpec>, levels: Seq<MenuState>) -> bool {
    &&& levels.len() >= 1
    &&& forall|k: int| 0 <= k < levels.len() ==> #[trigger] level_wf(roots, levels, k)
}

/// Changing levels only from index `k` on leaves the entries of levels `0..=k` unchanged.
pub proof fn lemma_items_at_prefix(roots: Seq<ItemSpec>, l1: Seq<MenuState>, l2: Seq<MenuState>, k: int)
    requires
        0 <= k <= l1.len(),
        k <= l2.len(),
        forall|j: int| 0 <= j < k ==> #[trigger] l1[j].active == l2[j].active,
    ensures
        items_at(roots, l1, k) == items_at(roots, l2, k),
    decreases k,
{
    if k > 0 {
        lemma_items_at_prefix(roots, l1, l2, k - 1);
    }
}

impl MenuState {
    /// The same state with another active entry.
    pub open spec fn with_active(self, active: Option<usize>) -> MenuState {
        MenuState { active, ..self }
    }

    /// The same state with another keyboard focus.
    pub open spec fn with_highlight(self, keyboard_highlight: Option<usize>) -> MenuState {
        MenuState { keyboard_highlight, ..self }
    }
}

impl GlobalState {
    /// The same state with another scheduled task.
    pub open spec fn with_task(self, task: Option<MenuBarTask>) -> GlobalState {
        GlobalState { task, ..self }
    }

    /// The flags of a menu bar whose menus have just been dismissed.
    pub open spec fn dismissed(self) -> GlobalState {
        GlobalState { open: false, keyboard_nav: false, bar_focused: false, ..self }
    }
}

/// The first `j` in `[from, min(n, hovered.len()))` with `hovered[j]`.
pub open spec fn first_true(hovered: Seq<bool>, n: int, from: int) -> Option<int>
    decreases n - from,
{
    if from < 0 || from >= n || from >= hovered.len() {
        None
    } else if hovered[from] {
        Some(from)
    } else {
        first_true(hovered, n, from + 1)
    }
}

pub proof fn lemma_first_true_bounds(hovered: Seq<bool>, n: int, from: int)
    requires
        0 <= from,
    ensures
        first_true(hovered, n, from) matches Some(j) ==> from <= j < n && j < hovered.len() && hovered[j],
        first_true(hovered, n, from) matches Some(j) ==> forall|i: int| from <= i < j ==> !#[trigger] hovered[i],
        first_true(hovered, n, from) is None ==> forall|i: int| from <= i < n && i < hovered.len() ==> !#[trigger] hovered[i],
    decreases n - from,
{
    if from < n && from < hovered.len() && !hovered[from] {
        lemma_first_true_bounds(hovered, n, from + 1);
    }
}

impl MenuBarView {
    /// The entries shown at level `k`.
    pub open spec fn items(self, k: int) -> Seq<ItemSpec> {
        items_at(self.roots, self.levels, k)
    }

    /// The view is consistent, and a closed bar shows no menu.
    pub open spec fn wf(self) -> bool {
        &&& path_wf(self.roots, self.levels)
        &&& (!self.global.open ==> self.levels.len() == 1)
    }

    /// The same view with other global flags.
    pub open spec fn with_global(self, global: GlobalState) -> MenuBarView {
        MenuBarView { global, ..self }
    }

    /// The same view with level `k` replaced.
    pub open spec fn with_level(self, k: int, level: MenuState) -> MenuBarView {
        MenuBarView { levels: self.levels.update(k, level), ..self }
    }

    /// Opens the submenu of entry `i` at level `m` with a fresh state, dropping whatever was open
    /// below level `m`; an entry whose submenu is missing or empty opens nothing.
    pub open spec fn open_at(self, m: int, i: int) -> MenuBarView {
        if self.items(m)[i].opens() {
            MenuBarView {
                levels: self.levels.take(m + 1).update(m, self.levels[m].with_active(Some(i as usize))).push(
                    MenuState::spec_default(),
                ),
                ..self
            }
        } else {
            self
        }
    }

    /// Closes the menu at level `m` (and everything below it); its opener at level `m - 1` is no
    /// longer active.
    pub open spec fn close_level(self, m: int) -> MenuBarView {
        MenuBarView {
            levels: self.levels.take(m).update(m - 1, self.levels[m - 1].with_active(None)),
            ..self
        }
    }

    /// Dismisses every menu: only the bar level is left, with nothing active or focused, and the
    /// bar is neither open nor keyboard driven.
    pub open spec fn shut(self) -> MenuBarView {
        MenuBarView {
            global: self.global.dismissed(),
            levels: seq![self.levels[0].with_active(None).with_highlight(None)],
            ..self
        }
    }

    /// The entry of level `m` under the cursor, given, for each entry of the visible slice in
    /// order, whether the cursor is over it.
    pub open spec fn hovered_entry(self, m: int, hovered: Seq<bool>) -> Option<int> {
        let (lo, hi) = self.levels[m].slice.spec_range(self.items(m).len() as int);
        match first_true(hovered, hi - lo, 0) {
            Some(j) => Some(lo + j),
            None => None,
        }
    }

    /// Opening by pointer at level `m`: the hovered entry, if it carries a submenu, opens it; when
    /// this changes the level's active entry, the keyboard focus follows it.
    pub open spec fn try_open(self, m: int, hovered: Seq<bool>) -> MenuBarView {
        let opened = match self.hovered_entry(m, hovered) {
            Some(i) => if self.items(m)[i].has_menu() {
                self.open_at(m, i)
            } else {
                self
            },
            None => self,
        };
        if opened.levels[m].active != self.levels[m].active {
            opened.with_level(m, opened.levels[m].with_highlight(opened.levels[m].active))
        } else {
            opened
        }
    }

    /// The global flags after a left click at level `m`: any earlier task is dropped, and closing
    /// is scheduled when the click lands on an entry that closes on click (its own override, else
    /// the bar-wide policy), or on the background when background clicks close.
    pub open spec fn schedule_close(self, m: int, hovered: Seq<bool>, params: GlobalParameters) -> GlobalState {
        let cleared = self.global.with_task(None);
        let close = match self.hovered_entry(m, hovered) {
            Some(i) => match self.items(m)[i].close_on_click {
                Some(c) => c,
                None => params.close_on_item_click,
            },
            None => params.close_on_background_click,
        };
        if close {
            cleared.with_task(Some(MenuBarTask::CloseOnClick))
        } else {
            cleared
        }
    }

    /// Closing the whole tree: nothing happens while the mouse button is held; otherwise the
    /// menus are dismissed and no task is left.
    pub open spec fn close_all(self) -> MenuBarView {
        if self.global.pressed {
            self
        } else {
            let s = self.shut();
            s.with_global(s.global.with_task(None))
        }
    }

    /// The bar loses its active root, and whatever was open below it.
    pub open spec fn release_bar(self) -> MenuBarView {
        MenuBarView { levels: seq![self.levels[0].with_active(None)], ..self }
    }

    /// What opening by pointer at level `m` asks of the widget: a layout and a redraw when the
    /// active entry changes, and fresh widget state for a submenu that opened.
    pub open spec fn try_open_effects(self, m: int, hovered: Seq<bool>) -> Effects {
        let changed = self.try_open(m, hovered).levels[m].active != self.levels[m].active;
        Effects {
            invalidate_layout: changed,
            request_redraw: changed,
            capture_event: false,
            close_menus: false,
            fresh_from: match self.hovered_entry(m, hovered) {
                Some(i) => if self.items(m)[i].opens() {
                    Some((m + 1) as usize)
                } else {
                    None
                },
                None => None,
            },
        }
    }

    /// The same view with the keyboard focus of level `m` moved to `h`.
    pub open spec fn with_highlight(self, m: int, h: Option<usize>) -> MenuBarView {
        self.with_level(m, self.levels[m].with_highlight(h))
    }
}

/// The first level, from `j` on, whose active entry does not open a menu of the given entries
/// (the last level when all do).
pub open spec fn first_broken(roots: Seq<ItemSpec>, levels: Seq<MenuState>, j: int) -> int
    decreases levels.len() - j,
{
    if j < 0 || j >= levels.len() - 1 {
        levels.len() - 1
    } else if active_valid(roots, levels, j) {
        first_broken(roots, levels, j + 1)
    } else {
        j
    }
}

pub proof fn lemma_first_broken(roots: Seq<ItemSpec>, levels: Seq<MenuState>, j: int)
    requires
        0 <= j < levels.len(),
    ensures
        j <= first_broken(roots, levels, j) < levels.len(),
        forall|i: int| j <= i < first_broken(roots, levels, j) ==> #[trigger] active_valid(roots, levels, i),
    decreases levels.len() - j,
{
    if j < levels.len() - 1 && active_valid(roots, levels, j) {
        lemma_first_broken(roots, levels, j + 1);
    }
}

/// The open path cut back to the part that still makes sense over the given entries: it ends
/// at the first level whose active entry no longer opens a menu, and a keyboard focus that
/// points past the entries of its level is dropped.
pub open spec fn reconcile(roots: Seq<ItemSpec>, levels: Seq<MenuState>) -> Seq<MenuState> {
    let c = first_broken(roots, levels, 0);
    let cut = levels.take(c + 1).update(c, levels[c].with_active(None));
    Seq::new(
        cut.len(),
        |k: int|
            if cut[k].keyboard_highlight matches Some(h) && h >= items_at(roots, cut, k).len() {
                cut[k].with_highlight(None)
            } else {
                cut[k]
            },
    )
}

} // verus!
