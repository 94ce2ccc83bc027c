//! The state of a menu bar and the primitive operations on its open path.

use vstd::prelude::*;
use crate::common::{MenuSlice, PathHighlight, Dismiss};
use crate::item::ItemSpec;
use crate::model::{MenuBarView, items_at, level_wf, path_wf, active_valid, first_broken, lemma_first_broken, reconcile, first_true, lemma_items_at_prefix, lemma_first_true_bounds};

verus! {

/// A task that a press schedules and the matching release carries out.
#[derive(Debug, Clone, Copy, PartialEq, Eq, Structural)]
pub enum MenuBarTask {
    OpenOnClick,
    CloseOnClick,
}

/// Flags shared by the bar and all of its menus.
#[derive(Debug, Clone, Copy, PartialEq, Eq, Structural)]
pub struct GlobalState {
    /// Whether the menu tree is open.
    pub open: bool,
    /// Whether the left mouse button is held down.
    pub pressed: bool,
    /// While `true`, the menu tree is being driven by the keyboard and ignores cursor-based
    /// closing. Reset as soon as the mouse moves.
    pub keyboard_nav: bool,
    /// `true` while Alt/F10 has activated the bar but no submenu is open yet.
    pub bar_focused: bool,
    /// A root to open, requested from outside and carried out on the next update.
    pub pending_open: Option<usize>,
    /// A close requested from outside and carried out on the next update.
    pub pending_close: bool,
    /// The task scheduled by a press, to be carried out on release.
    pub task: Option<MenuBarTask>,
}

impl GlobalState {
    /// Everything off, nothing pending.
    pub open spec fn spec_default() -> GlobalState {
        GlobalState {
            open: false,
            pressed: false,
            keyboard_nav: false,
            bar_focused: false,
            pending_open: None,
            pending_close: false,
            task: None,
        }
    }

    /// Schedules `task`, replacing any task scheduled before.
    pub fn schedule(&mut self, task: MenuBarTask)
        ensures
            *final(self) == old(self).with_task(Some(task)),
    {
        self.task = Some(task);
    }

    /// The scheduled task.
    pub fn task(&self) -> (r: Option<MenuBarTask>)
        ensures
            r == self.task,
    {
        self.task
    }

    /// Drops the scheduled task.
    pub fn clear_task(&mut self)
        ensures
            *final(self) == old(self).with_task(None),
    {
        self.task = None;
    }
}

impl Default for GlobalState {
    fn default() -> (r: Self)
        ensures
            r == GlobalState::spec_default(),
    {
        GlobalState {
            open: false,
            pressed: false,
            keyboard_nav: false,
            bar_focused: false,
            pending_open: None,
            pending_close: false,
            task: None,
        }
    }
}

/// The settings of a menu bar that take part in its decisions.
#[derive(Debug, Clone, Copy, PartialEq, Eq, Structural)]
pub struct GlobalParameters {
    /// How the open path is highlighted.
    pub path_highlight: PathHighlight,
    /// Whether clicking an entry closes the menu tree (unless the entry overrides it).
    pub close_on_item_click: bool,
    /// Whether a click on a menu's own background closes the menu tree.
    pub close_on_background_click: bool,
    /// Whether hovering the bar opens the menu tree without a click.
    pub open_on_hover: bool,
}

impl GlobalParameters {
    /// The defaults: the path is filled, clicking an entry closes the tree, background clicks
    /// do not, and opening needs a click.
    pub fn new() -> (r: Self)
        ensures
            r.path_highlight == PathHighlight::Fill,
            r.close_on_item_click,
            !r.close_on_background_click,
            !r.open_on_hover,
    {
        GlobalParameters {
            path_highlight: PathHighlight::Fill,
            close_on_item_click: true,
            close_on_background_click: false,
            open_on_hover: false,
        }
    }

    /// Sets how the active path is highlighted.
    pub fn path_highlight(self, path_highlight: PathHighlight) -> (r: Self)
        ensures
            r == (GlobalParameters { path_highlight, ..self }),
    {
        GlobalParameters { path_highlight, ..self }
    }

    /// Sets when an open menu tree is dismissed.
    pub fn dismiss(self, dismiss: Dismiss) -> (r: Self)
        ensures
            r == (GlobalParameters { close_on_item_click: dismiss == Dismiss::OnItemClick, ..self }),
    {
        let close_on_item_click = match dismiss {
            Dismiss::OnItemClick => true,
            Dismiss::Manual => false,
        };
        GlobalParameters { close_on_item_click, ..self }
    }

    /// Sets whether a click on a menu's own background dismisses the menu tree.
    pub fn close_on_background_click(self, close: bool) -> (r: Self)
        ensures
            r == (GlobalParameters { close_on_background_click: close, ..self }),
    {
        GlobalParameters { close_on_background_click: close, ..self }
    }

    /// Sets whether hovering the bar opens the menu tree.
    pub fn open_on_hover(self, open_on_hover: bool) -> (r: Self)
        ensures
            r == (GlobalParameters { open_on_hover, ..self }),
    {
        GlobalParameters { open_on_hover, ..self }
    }
}

/// The state of one level of the open path: the bar itself or one open menu.
#[derive(Debug, Clone, Copy, PartialEq, Eq, Structural)]
pub struct MenuState {
    /// The entry whose submenu is open below this level.
    pub active: Option<usize>,
    /// The entry the keyboard focus sits on.
    pub keyboard_highlight: Option<usize>,
    /// The entries that are visible.
    pub slice: MenuSlice,
}

impl MenuState {
    /// A freshly opened level: nothing active or focused, every entry assumed visible.
    pub open spec fn spec_default() -> MenuState {
        MenuState { active: None, keyboard_highlight: None, slice: MenuSlice::spec_everything() }
    }
}

impl Default for MenuState {
    fn default() -> (r: Self)
        ensures
            r == MenuState::spec_default(),
    {
        MenuState { active: None, keyboard_highlight: None, slice: MenuSlice::everything() }
    }
}

/// What the widget has to carry out after a decision.
#[derive(Debug, Clone, Copy, PartialEq, Eq, Structural)]
pub struct Effects {
    /// The layout must be recomputed.
    pub invalidate_layout: bool,
    /// A redraw must be requested.
    pub request_redraw: bool,
    /// The event must be captured.
    pub capture_event: bool,
    /// The widget state of every open menu must be discarded (the menus were dismissed).
    pub close_menus: bool,
    /// The menu at this level, and every one below it, was opened afresh: its widget state must
    /// start over.
    pub fresh_from: Option<usize>,
}

impl Effects {
    /// Nothing to do.
    pub open spec fn spec_none() -> Effects {
        Effects {
            invalidate_layout: false,
            request_redraw: false,
            capture_event: false,
            close_menus: false,
            fresh_from: None,
        }
    }

    /// Nothing to do.
    pub fn none() -> (r: Effects)
        ensures
            r == Effects::spec_none(),
    {
        Effects {
            invalidate_layout: false,
            request_redraw: false,
            capture_event: false,
            close_menus: false,
            fresh_from: None,
        }
    }
}

/// The state of a menu bar: its global flags, its entries with their menus, and the open path.
pub struct MenuBarState {
    pub global_state: GlobalState,
    pub roots: Vec<ItemSpec>,
    pub levels: Vec<MenuState>,
}

impl View for MenuBarState {
    type V = MenuBarView;

    open spec fn view(&self) -> MenuBarView {
        MenuBarView { global: self.global_state, roots: self.roots@, levels: self.levels@ }
    }
}

/// Whether the entry opens a non-empty submenu.
fn opens_menu(item: &ItemSpec) -> (r: bool)
    ensures
        r == item.opens(),
{
    match &item.submenu {
        Some(v) => v.len() > 0,
        None => false,
    }
}

/// The entries shown at level `m` of the open path.
fn items_at_level<'a>(roots: &'a Vec<ItemSpec>, levels: &Vec<MenuState>, m: usize) -> (r: &'a Vec<ItemSpec>)
    requires
        m < levels.len(),
        forall|j: int| 0 <= j < m ==> #[trigger] active_valid(roots@, levels@, j),
    ensures
        r@ == items_at(roots@, levels@, m as int),
{
    let mut items = roots;
    let mut k: usize = 0;
    while k < m
        invariant
            0 <= k <= m < levels.len(),
            forall|j: int| 0 <= j < m ==> #[trigger] active_valid(roots@, levels@, j),
            items@ == items_at(roots@, levels@, k as int),
        decreases m - k,
    {
        assert(active_valid(roots@, levels@, k as int));
        let a = levels[k].active.unwrap();
        items = match &items[a].submenu {
            Some(v) => v,
            None => items,
        };
        k = k + 1;
    }
    items
}

/// A consistent path has a valid active entry at every level but the last.
proof fn lemma_path_actives(roots: Seq<ItemSpec>, levels: Seq<MenuState>, m: int)
    requires
        path_wf(roots, levels),
        m < levels.len(),
    ensures
        forall|j: int| 0 <= j < m ==> #[trigger] active_valid(roots, levels, j),
{
    assert forall|j: int| 0 <= j < m implies #[trigger] active_valid(roots, levels, j) by {
        assert(level_wf(roots, levels, j));
    }
}

/// Whether two optional indices are equal.
pub(crate) fn same_index(a: Option<usize>, b: Option<usize>) -> (r: bool)
    ensures
        r == (a == b),
{
    match (a, b) {
        (Some(x), Some(y)) => x == y,
        (None, None) => true,
        _ => false,
    }
}

/// The first `j < n` with `hovered[j]`.
pub(crate) fn first_hovered(hovered: &Vec<bool>, n: usize) -> (r: Option<usize>)
    ensures
        match r {
            Some(j) => first_true(hovered@, n as int, 0) == Some(j as int),
            None => first_true(hovered@, n as int, 0) is None,
        },
{
    let mut j: usize = 0;
    while j < n && j < hovered.len()
        invariant
            0 <= j,
            first_true(hovered@, n as int, 0) == first_true(hovered@, n as int, j as int),
        decreases n - j,
    {
        if hovered[j] {
            return Some(j);
        }
        j = j + 1;
    }
    None
}

impl MenuBarState {
    /// A closed menu bar over the given entries.
    pub fn new(roots: Vec<ItemSpec>) -> (r: Self)
        ensures
            r@.wf(),
            r@.global == GlobalState::spec_default(),
            r@.roots == roots@,
            r@.levels == seq![MenuState::spec_default()],
    {
        let mut levels = Vec::new();
        levels.push(MenuState::default());
        let r = MenuBarState { global_state: GlobalState::default(), roots, levels };
        assert(r@.levels == seq![MenuState::spec_default()]);
        assert(level_wf(r@.roots, r@.levels, 0));
        r
    }

    /// The number of levels of the open path (1 when only the bar is shown).
    pub fn depth(&self) -> (r: usize)
        ensures
            r == self@.levels.len(),
    {
        self.levels.len()
    }

    /// The state of level `k` of the open path.
    pub fn level(&self, k: usize) -> (r: MenuState)
        requires
            k < self@.levels.len(),
        ensures
            r == self@.levels[k as int],
    {
        self.levels[k]
    }

    /// The global flags.
    pub fn global(&self) -> (r: GlobalState)
        ensures
            r == self@.global,
    {
        self.global_state
    }

    /// Opens the submenu of entry `i` at level `m`, as `open_at` describes; returns whether a
    /// menu opened.
    pub(crate) fn open_at(&mut self, m: usize, i: usize) -> (r: bool)
        requires
            old(self)@.wf(),
            m < old(self)@.levels.len(),
            i < old(self)@.items(m as int).len(),
            old(self)@.global.open,
        ensures
            final(self)@ == old(self)@.open_at(m as int, i as int),
            final(self)@.wf(),
            r == old(self)@.items(m as int)[i as int].opens(),
    {
        let opens = {
            proof {
                lemma_path_actives(self@.roots, self@.levels, m as int);
            }
            let items = items_at_level(&self.roots, &self.levels, m);
            opens_menu(&items[i])
        };
        if !opens {
            return false;
        }
        let ghost old_view = self@;
        self.levels.truncate(m + 1);
        let cur = self.levels[m];
        self.levels.set(m, MenuState { active: Some(i), ..cur });
        self.levels.push(MenuState::default());
        proof {
            let l0 = old_view.levels;
            let l1 = self@.levels;
            assert(l1 =~= old_view.open_at(m as int, i as int).levels);
            assert forall|k: int| 0 <= k < l1.len() implies #[trigger] level_wf(self@.roots, l1, k) by {
                assert(level_wf(old_view.roots, l0, k) || k == m + 1);
                if k <= m {
                    lemma_items_at_prefix(old_view.roots, l0, l1, k);
                    assert(level_wf(old_view.roots, l0, k));
                } else {
                    lemma_items_at_prefix(old_view.roots, l0, l1, m as int);
                }
            }
        }
        true
    }

    /// Closes the menu at level `m` and everything below it, as `close_level` describes.
    pub(crate) fn close_level(&mut self, m: usize)
        requires
            old(self)@.wf(),
            1 <= m < old(self)@.levels.len(),
        ensures
            final(self)@ == old(self)@.close_level(m as int),
            final(self)@.wf(),
    {
        let ghost old_view = self@;
        self.levels.truncate(m);
        let cur = self.levels[m - 1];
        self.levels.set(m - 1, MenuState { active: None, ..cur });
        proof {
            let l0 = old_view.levels;
            let l1 = self@.levels;
            assert(l1 =~= old_view.close_level(m as int).levels);
            assert forall|k: int| 0 <= k < l1.len() implies #[trigger] level_wf(self@.roots, l1, k) by {
                assert(level_wf(old_view.roots, l0, k));
                lemma_items_at_prefix(old_view.roots, l0, l1, k);
            }
        }
    }

    /// Dismisses every menu, as `shut` describes.
    pub(crate) fn shut(&mut self)
        requires
            old(self)@.wf(),
        ensures
            final(self)@ == old(self)@.shut(),
            final(self)@.wf(),
    {
        let ghost old_view = self@;
        self.levels.truncate(1);
        let cur = self.levels[0];
        self.levels.set(0, MenuState { active: None, keyboard_highlight: None, ..cur });
        self.global_state.open = false;
        self.global_state.keyboard_nav = false;
        self.global_state.bar_focused = false;
        proof {
            let l0 = old_view.levels;
            let l1 = self@.levels;
            assert(l1 =~= old_view.shut().levels);
            assert(level_wf(old_view.roots, l0, 0));
            assert(level_wf(self@.roots, l1, 0));
        }
    }

    /// The entry of level `m` under the cursor, given, for each entry of the visible slice in
    /// order, whether the cursor is over it.
    pub fn hovered_entry(&self, m: usize, hovered: &Vec<bool>) -> (r: Option<usize>)
        requires
            self@.wf(),
            m < self@.levels.len(),
        ensures
            match r {
                Some(i) => self@.hovered_entry(m as int, hovered@) == Some(i as int) && i < self@.items(
                    m as int,
                ).len(),
                None => self@.hovered_entry(m as int, hovered@) is None,
            },
    {
        proof {
            lemma_path_actives(self@.roots, self@.levels, m as int);
        }
        let items = items_at_level(&self.roots, &self.levels, m);
        let (lo, hi) = self.levels[m].slice.range(items.len());
        let found = first_hovered(hovered, hi - lo);
        proof {
            lemma_first_true_bounds(hovered@, (hi - lo) as int, 0);
        }
        match found {
            Some(j) => Some(lo + j),
            None => None,
        }
    }

    /// Opens by pointer at level `m`, as `try_open` describes. When the active entry changes,
    /// the layout is invalidated and a redraw requested; when a submenu opened, it is fresh.
    pub fn try_open_menu(&mut self, m: usize, hovered: &Vec<bool>) -> (r: Effects)
        requires
            old(self)@.wf(),
            m < old(self)@.levels.len(),
            old(self)@.global.open,
        ensures
            final(self)@ == old(self)@.try_open(m as int, hovered@),
            final(self)@.wf(),
            r == old(self)@.try_open_effects(m as int, hovered@),
    {
        let ghost v0 = self@;
        let old_active = self.levels[m].active;
        let found = self.hovered_entry(m, hovered);
        let mut fresh_from = None;
        if let Some(i) = found {
            let has_menu = {
                proof {
                    lemma_path_actives(self@.roots, self@.levels, m as int);
                }
                let items = items_at_level(&self.roots, &self.levels, m);
                items[i].has_submenu()
            };
            if has_menu {
                let opened = self.open_at(m, i);
                if opened {
                    let depth = self.levels.len();
                    fresh_from = Some(depth - 1);
                }
            }
        }
        let ghost v1 = self@;
        let new_active = self.levels[m].active;
        let changed = !same_index(new_active, old_active);
        if changed {
            let cur = self.levels[m];
            self.levels.set(m, MenuState { keyboard_highlight: new_active, ..cur });
            proof {
                assert(self@.levels =~= v1.with_level(m as int, v1.levels[m as int].with_highlight(v1.levels[m as int].active)).levels);
                assert forall|k: int| 0 <= k < self@.levels.len() implies #[trigger] level_wf(self@.roots, self@.levels, k) by {
                    assert(level_wf(v1.roots, v1.levels, k));
                    lemma_items_at_prefix(v1.roots, v1.levels, self@.levels, k);
                }
            }
        }
        Effects {
            invalidate_layout: changed,
            request_redraw: changed,
            capture_event: false,
            close_menus: false,
            fresh_from,
        }
    }

    /// Handles a left click at level `m`: schedules closing as `schedule_close` describes.
    pub fn schedule_close_on_click(&mut self, m: usize, hovered: &Vec<bool>, params: &GlobalParameters)
        requires
            old(self)@.wf(),
            m < old(self)@.levels.len(),
        ensures
            final(self)@ == old(self)@.with_global(old(self)@.schedule_close(m as int, hovered@, *params)),
            final(self)@.wf(),
    {
        self.global_state.clear_task();
        let found = self.hovered_entry(m, hovered);
        let close = match found {
            Some(i) => {
                proof {
                    lemma_path_actives(self@.roots, self@.levels, m as int);
                }
                let items = items_at_level(&self.roots, &self.levels, m);
                items[i].closes_on_click(params.close_on_item_click)
            },
            None => params.close_on_background_click,
        };
        if close {
            self.global_state.schedule(MenuBarTask::CloseOnClick);
        }
    }

    /// Closes the whole menu tree, unless the mouse button is still held (the release will decide
    /// then): only the bar level is left, nothing is active or focused, no task is pending.
    pub fn close(&mut self) -> (r: Effects)
        requires
            old(self)@.wf(),
        ensures
            final(self)@ == old(self)@.close_all(),
            final(self)@.wf(),
            r == (if old(self)@.global.pressed {
                Effects::spec_none()
            } else {
                Effects { close_menus: true, request_redraw: true, ..Effects::spec_none() }
            }),
    {
        if self.global_state.pressed {
            return Effects::none();
        }
        self.shut();
        self.global_state.clear_task();
        Effects {
            invalidate_layout: false,
            request_redraw: true,
            capture_event: false,
            close_menus: true,
            fresh_from: None,
        }
    }

    /// Drops whatever is open below the bar: the bar has no active root any more.
    pub(crate) fn release_bar(&mut self)
        requires
            old(self)@.wf(),
        ensures
            final(self)@ == old(self)@.release_bar(),
            final(self)@.wf(),
    {
        if self.levels.len() > 1 {
            self.close_level(1);
            proof {
                assert(self@.levels =~= old(self)@.release_bar().levels);
            }
        } else {
            proof {
                assert(level_wf(self@.roots, self@.levels, 0));
                assert(self@.levels =~= old(self)@.release_bar().levels);
            }
        }
    }

    /// Moves the keyboard focus of level `m` to `h`.
    pub(crate) fn set_highlight(&mut self, m: usize, h: Option<usize>)
        requires
            old(self)@.wf(),
            m < old(self)@.levels.len(),
            h matches Some(i) ==> i < old(self)@.items(m as int).len(),
        ensures
            final(self)@ == old(self)@.with_highlight(m as int, h),
            final(self)@.wf(),
    {
        let ghost v0 = self@;
        let cur = self.levels[m];
        self.levels.set(m, MenuState { keyboard_highlight: h, ..cur });
        proof {
            assert(self@.levels =~= v0.with_highlight(m as int, h).levels);
            assert forall|k: int| 0 <= k < self@.levels.len() implies #[trigger] level_wf(self@.roots, self@.levels, k) by {
                assert(level_wf(v0.roots, v0.levels, k));
                lemma_items_at_prefix(v0.roots, v0.levels, self@.levels, k);
            }
        }
    }

    /// The entries shown at level `m` of the open path.
    pub fn items(&self, m: usize) -> (r: &Vec<ItemSpec>)
        requires
            self@.wf(),
            m < self@.levels.len(),
        ensures
            r@ == self@.items(m as int),
    {
        proof {
            lemma_path_actives(self@.roots, self@.levels, m as int);
        }
        items_at_level(&self.roots, &self.levels, m)
    }

    /// Replaces the entries (the widget was rebuilt), keeping the part of the open path that still
    /// makes sense over them, as `reconcile` describes.
    pub fn diff(&mut self, roots: Vec<ItemSpec>)
        requires
            old(self)@.wf(),
        ensures
            final(self)@ == (MenuBarView { roots: roots@, levels: reconcile(roots@, old(self)@.levels), ..old(self)@ }),
            final(self)@.wf(),
    {
        let ghost l0 = self@.levels;
        self.roots = roots;
        let ghost r0 = self@.roots;
        let n = self.levels.len();
        proof {
            lemma_first_broken(r0, l0, 0);
        }
        let cut: usize = {
            let mut items: &Vec<ItemSpec> = &self.roots;
            let mut j: usize = 0;
            let mut done = false;
            while !done && j + 1 < n
                invariant
                    n == l0.len(),
                    self@.levels == l0,
                    self@.roots == r0,
                    0 <= j < n,
                    items@ == items_at(r0, l0, j as int),
                    forall|i: int| 0 <= i < j ==> #[trigger] active_valid(r0, l0, i),
                    first_broken(r0, l0, 0) == if done {
                        j as int
                    } else {
                        first_broken(r0, l0, j as int)
                    },
                decreases n - j + if done {
                    0int
                } else {
                    1int
                },
            {
                let valid = match self.levels[j].active {
                    Some(a) => a < items.len() && opens_menu(&items[a]),
                    None => false,
                };
                if valid {
                    let a = self.levels[j].active.unwrap();
                    items = match &items[a].submenu {
                        Some(v) => v,
                        None => items,
                    };
                    j = j + 1;
                } else {
                    done = true;
                }
            }
            j
        };
        proof {
            lemma_first_broken(r0, l0, 0);
        }
        self.levels.truncate(cut + 1);
        let cur = self.levels[cut];
        self.levels.set(cut, MenuState { active: None, ..cur });
        let ghost l1 = self@.levels;
        proof {
            assert(l1 =~= l0.take(cut + 1).update(cut as int, l0[cut as int].with_active(None)));
            assert forall|i: int| 0 <= i < cut implies #[trigger] active_valid(r0, l1, i) by {
                lemma_items_at_prefix(r0, l0, l1, i);
                assert(active_valid(r0, l0, i));
            }
        }
        let mut k: usize = 0;
        while k <= cut
            invariant
                self@.roots == r0,
                self@.global == old(self)@.global,
                self@.levels.len() == l1.len() == cut + 1,
                cut < n == l0.len(),
                first_broken(r0, l0, 0) == cut,
                l1 == l0.take(cut + 1).update(cut as int, l0[cut as int].with_active(None)),
                forall|i: int| 0 <= i < self@.levels.len() ==> #[trigger] self@.levels[i].active == l1[i].active,
                forall|i: int| 0 <= i < self@.levels.len() ==> #[trigger] self@.levels[i].slice == l1[i].slice,
                forall|i: int| 0 <= i < cut ==> #[trigger] active_valid(r0, l1, i),
                forall|i: int| 0 <= i < self@.levels.len() ==> #[trigger] self@.levels[i] == if i < k {
                    reconcile(r0, l0)[i]
                } else {
                    l1[i]
                },
            decreases cut + 1 - k,
        {
            let ghost lk = self@.levels;
            proof {
                lemma_items_at_prefix(r0, l1, lk, k as int);
                assert forall|i: int| 0 <= i < k implies #[trigger] active_valid(r0, lk, i) by {
                    lemma_items_at_prefix(r0, l1, lk, i);
                    assert(active_valid(r0, l1, i));
                }
            }
            let len_k = items_at_level(&self.roots, &self.levels, k).len();
            let st = self.levels[k];
            if let Some(h) = st.keyboard_highlight {
                if h >= len_k {
                    self.levels.set(k, MenuState { keyboard_highlight: None, ..st });
                }
            }
            proof {
                assert(self@.levels[k as int] == reconcile(r0, l0)[k as int]);
            }
            k = k + 1;
        }
        proof {
            let l2 = self@.levels;
            assert(l2 =~= reconcile(r0, l0));
            assert forall|i: int| 0 <= i < l2.len() implies #[trigger] level_wf(r0, l2, i) by {
                lemma_items_at_prefix(r0, l1, l2, i);
                lemma_items_at_prefix(r0, l1, l2, i + 1);
                assert(l0[i].slice.wf()) by {
                    assert(level_wf(old(self)@.roots, l0, i));
                }
                if i < cut {
                    assert(active_valid(r0, l1, i));
                }
            }
        }
    }

    /// Records the visible slice of level `k`, as measured by the layout.
    pub fn set_level_slice(&mut self, k: usize, slice: MenuSlice)
        requires
            old(self)@.wf(),
            k < old(self)@.levels.len(),
            slice.wf(),
        ensures
            final(self)@ == old(self)@.with_level(k as int, MenuState { slice, ..old(self)@.levels[k as int] }),
            final(self)@.wf(),
    {
        let ghost v0 = self@;
        let cur = self.levels[k];
        self.levels.set(k, MenuState { slice, ..cur });
        proof {
            assert forall|i: int| 0 <= i < self@.levels.len() implies #[trigger] level_wf(self@.roots, self@.levels, i) by {
                assert(level_wf(v0.roots, v0.levels, i));
                lemma_items_at_prefix(v0.roots, v0.levels, self@.levels, i);
            }
        }
    }
}

} // verus!
