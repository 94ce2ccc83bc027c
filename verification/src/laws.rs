//! Properties of the menu bar that span several operations or hold of every state.

use vstd::prelude::*;
use crate::bar::BarEvent;
use crate::common::{Direction, RecEvent, spec_flip};
use crate::item::ItemSpec;
use crate::keys::Key;
use crate::model::{MenuBarView, active_valid, first_broken, items_at, level_wf, path_wf, reconcile, lemma_items_at_prefix, lemma_first_true_bounds, lemma_first_broken};
use crate::keyboard::{EntryRef, switch_scan};
use crate::overlay::{MenuGeometry, MenuStep, OverlayInput, hidden_input, spec_menu_step, step_report};
use crate::state::{GlobalParameters, GlobalState, MenuBarTask, MenuState};

verus! {

/// Flipping a direction twice gives it back, and flipping always changes it.
pub proof fn lemma_flip_involution(d: Direction)
    ensures
        spec_flip(spec_flip(d)) == d,
        spec_flip(d) != d,
{
}

/// A scheduled task is what `task` reports until it is cleared or replaced.
pub proof fn lemma_schedule_then_clear(g: GlobalState, t: MenuBarTask, u: MenuBarTask)
    ensures
        g.with_task(Some(t)).task == Some(t),
        g.with_task(Some(t)).with_task(Some(u)).task == Some(u),
        g.with_task(Some(t)).with_task(None).task is None,
{
}

/// Closing the tree (button up) leaves a closed bar with nothing open, focused, or pending as a
/// task; closing again changes nothing.
pub proof fn lemma_close_closes(v: MenuBarView)
    requires
        v.wf(),
        !v.global.pressed,
    ensures
        !v.close_all().global.open,
        !v.close_all().global.keyboard_nav,
        !v.close_all().global.bar_focused,
        v.close_all().global.task is None,
        v.close_all().levels.len() == 1,
        v.close_all().levels[0].active is None,
        v.close_all().levels[0].keyboard_highlight is None,
        v.close_all().close_all() == v.close_all(),
{
    let c = v.close_all();
    assert(c.shut().levels =~= c.levels);
}

/// An entry's own dismiss override decides whether clicking it closes the tree, whatever the
/// bar-wide policy.
pub proof fn lemma_item_override_wins(v: MenuBarView, m: int, hovered: Seq<bool>, p1: GlobalParameters, p2: GlobalParameters)
    requires
        v.hovered_entry(m, hovered) matches Some(i) && v.items(m)[i].close_on_click is Some,
    ensures
        v.schedule_close(m, hovered, p1) == v.schedule_close(m, hovered, p2),
        v.schedule_close(m, hovered, p1).task == (if v.items(m)[v.hovered_entry(m, hovered).unwrap()].close_on_click
            == Some(true) {
            Some(MenuBarTask::CloseOnClick)
        } else {
            None
        }),
{
}

/// A state whose path is already consistent with its entries survives a rebuild with the same
/// entries unchanged.
pub proof fn lemma_diff_same_entries(roots: Seq<ItemSpec>, levels: Seq<MenuState>)
    requires
        path_wf(roots, levels),
    ensures
        reconcile(roots, levels) == levels,
{
    let n = levels.len() as int;
    assert forall|j: int| 0 <= j < n - 1 implies #[trigger] active_valid(roots, levels, j) by {
        assert(level_wf(roots, levels, j));
    }
    lemma_first_broken_all_valid(roots, levels, 0);
    assert(level_wf(roots, levels, n - 1));
    let cut = levels.take(n).update(n - 1, levels[n - 1].with_active(None));
    assert(cut =~= levels);
    assert forall|k: int| 0 <= k < n implies #[trigger] reconcile(roots, levels)[k] == levels[k] by {
        assert(level_wf(roots, levels, k));
    }
    assert(reconcile(roots, levels) =~= levels);
}

proof fn lemma_first_broken_all_valid(roots: Seq<ItemSpec>, levels: Seq<MenuState>, j: int)
    requires
        0 <= j < levels.len(),
        forall|i: int| 0 <= i < levels.len() - 1 ==> #[trigger] active_valid(roots, levels, i),
    ensures
        first_broken(roots, levels, j) == levels.len() - 1,
    decreases levels.len() - j,
{
    if j < levels.len() - 1 {
        assert(active_valid(roots, levels, j));
        lemma_first_broken_all_valid(roots, levels, j + 1);
    }
}

/// Opening the focused submenu with Right and closing it again with Left returns the open path
/// to where it was; the tree is then keyboard driven.
pub proof fn lemma_right_then_left(v: MenuBarView, layouts: Seq<usize>, params: GlobalParameters)
    requires
        v.wf(),
        v.global.open,
        v.levels.len() >= 2,
        layouts.len() >= v.levels.len(),
        v.levels[v.levels.len() - 1].keyboard_highlight matches Some(i) && i < v.items(v.levels.len() - 1).len()
            && v.items(v.levels.len() - 1)[i as int].opens(),
    ensures
        v.after_key(Key::ArrowRight, layouts, params).1.consumed,
        v.after_key(Key::ArrowRight, layouts, params).0.levels.len() == v.levels.len() + 1,
        v.after_key(Key::ArrowRight, layouts, params).0.after_key(Key::ArrowLeft, layouts, params).0 == v.with_global(
            GlobalState { keyboard_nav: true, ..v.global },
        ),
{
    let d = v.levels.len() - 1;
    let i = v.levels[d].keyboard_highlight.unwrap();
    let v1 = v.with_global(GlobalState { keyboard_nav: true, ..v.global });
    assert(v1.items(d) == v.items(d));
    let w = v.after_key(Key::ArrowRight, layouts, params).0;
    let o = v1.open_at(d, i as int);
    assert(o.levels.len() == d + 2);
    lemma_items_at_prefix(v.roots, v.levels, o.levels, d);
    let w2 = w.after_key(Key::ArrowLeft, layouts, params).0;
    assert(level_wf(v.roots, v.levels, d));
    assert(w2.levels =~= v.levels);
}

/// Pressing Alt twice while the tree is closed activates the bar and leaves it again, returning
/// to the state before.
pub proof fn lemma_alt_twice(v: MenuBarView)
    requires
        v.wf(),
        !v.global.open,
        !v.global.bar_focused,
        !v.global.keyboard_nav,
        v.levels[0].keyboard_highlight is None,
    ensures
        v.after_bar_key(Key::Alt).0.global.bar_focused,
        v.after_bar_key(Key::Alt).0.after_bar_key(Key::Alt).0 == v,
{
    let w = v.after_bar_key(Key::Alt).0.after_bar_key(Key::Alt).0;
    assert(w.levels =~= v.levels);
}

/// The cursor is off a menu: not over it or the gap to its parent entry, not over its parent
/// entry, and not over the bar or any menu further up the open path.
pub open spec fn off_menus(g: MenuGeometry) -> bool {
    !g.over_menu && !g.over_parent && !g.over_previous
}

/// Without a press, the menus' steps leave the global flags as they are.
proof fn lemma_resolve_keeps_global(
    v: MenuBarView,
    m: int,
    rec_event: RecEvent,
    input: OverlayInput,
    records: Seq<crate::overlay::StepRecord>,
    effects: crate::state::Effects,
)
    requires
        0 <= m < v.levels.len(),
        !input.left_press,
    ensures
        v.resolve(m, rec_event, input, records, effects).0.global == v.global,
    decreases m,
{
    if m >= 1 {
        let (v1, record, e1) = v.step_at(m, rec_event, input);
        assert(v1.global == v.global);
        assert(m - 1 < v1.levels.len());
        lemma_resolve_keeps_global(v1, m - 1, step_report(record.step), input, records.push(record), effects.merge(e1));
    }
}

/// A release that carries a scheduled close always dismisses the whole tree, wherever the cursor
/// is.
pub proof fn lemma_release_with_close_dismisses(
    v: MenuBarView,
    input: OverlayInput,
    cursor_available: bool,
    over_bar: bool,
)
    requires
        v.wf(),
        v.global.open,
        v.levels.len() >= 2,
        v.global.task == Some(MenuBarTask::CloseOnClick),
        !input.left_press,
    ensures
        v.overlay_begin(BarEvent::LeftReleased).1,
        !v.overlay_begin(BarEvent::LeftReleased).0.after_overlay(input, cursor_available, over_bar, true).0.global.open,
        v.overlay_begin(BarEvent::LeftReleased).0.after_overlay(input, cursor_available, over_bar, true).0.levels.len() == 1,
        v.overlay_begin(BarEvent::LeftReleased).0.after_overlay(input, cursor_available, over_bar, true).0.global.task is None,
{
    let v1 = v.overlay_begin(BarEvent::LeftReleased).0;
    let d = v1.levels.len() - 1;
    let s = if d <= input.geometry.len() { d } else { input.geometry.len() as int };
    let first = if s < d || cursor_available { RecEvent::Close } else { RecEvent::Event };
    let hidden_first = if s < d { RecEvent::Close } else { RecEvent::Event };
    lemma_resolve_keeps_global(v1, s, first, input, Seq::empty(), crate::state::Effects::spec_none());
    lemma_resolve_keeps_global(v1, s, hidden_first, hidden_input(input), Seq::empty(), crate::state::Effects::spec_none());
}

/// A press off the bar and off every open menu schedules closing the tree, whatever the dismiss
/// and background-click policies say; the open menus stay as they are until the release.
pub proof fn lemma_press_outside_schedules_close(v: MenuBarView, press: OverlayInput)
    requires
        v.wf(),
        v.global.open,
        v.levels.len() >= 2,
        press.left_press,
        press.geometry.len() >= v.levels.len() - 1,
        forall|j: int| 0 <= j < press.geometry.len() ==> #[trigger] off_menus(press.geometry[j]),
    ensures
        v.overlay_begin(BarEvent::LeftPressed).1,
        v.overlay_begin(BarEvent::LeftPressed).0.after_overlay(press, true, false, false).0 == v.with_global(
            GlobalState {
                pressed: true,
                keyboard_nav: false,
                task: Some(MenuBarTask::CloseOnClick),
                ..v.global
            },
        ),
{
    let v1 = v.overlay_begin(BarEvent::LeftPressed).0;
    let d = v1.levels.len() - 1;
    assert(off_menus(press.geometry[d - 1]));
    let (v2, record, e1) = v1.step_at(d, RecEvent::Close, press);
    assert(record.step == MenuStep::Linger);
    assert(v2 == v1.with_global(v1.global.with_task(Some(MenuBarTask::CloseOnClick))));
    lemma_resolve_child_focused(v2, d - 1, press, Seq::empty().push(record), crate::state::Effects::spec_none().merge(e1));
    assert(v2 == v.with_global(
        GlobalState { pressed: true, keyboard_nav: false, task: Some(MenuBarTask::CloseOnClick), ..v.global },
    ));
}

/// A click off the bar and off every open menu always dismisses the whole tree, whatever the
/// dismiss and background-click policies say: the press schedules the close (the bar, the cursor
/// being off it, leaves that be) and the release carries it out.
pub proof fn lemma_click_outside_dismisses(
    v: MenuBarView,
    press: OverlayInput,
    release: OverlayInput,
    hovered_roots: Seq<bool>,
    scrollable: bool,
    params: GlobalParameters,
)
    requires
        v.wf(),
        v.global.open,
        v.levels.len() >= 2,
        press.left_press,
        press.geometry.len() >= v.levels.len() - 1,
        forall|j: int| 0 <= j < press.geometry.len() ==> #[trigger] off_menus(press.geometry[j]),
        !release.left_press,
    ensures
        ({
            let pressed = v.overlay_begin(BarEvent::LeftPressed).0.after_overlay(press, true, false, false).0.after_bar_event(
                BarEvent::LeftPressed,
                false,
                hovered_roots,
                scrollable,
                params,
            ).0;
            let released = pressed.overlay_begin(BarEvent::LeftReleased).0.after_overlay(release, true, false, true).0;
            &&& !released.global.open
            &&& released.levels.len() == 1
        }),
{
    lemma_press_outside_schedules_close(v, press);
    let p = v.with_global(
        GlobalState { pressed: true, keyboard_nav: false, task: Some(MenuBarTask::CloseOnClick), ..v.global },
    );
    assert(p.after_bar_event(BarEvent::LeftPressed, false, hovered_roots, scrollable, params).0 == p);
    lemma_release_with_close_dismisses(p, release, true, false);
}

/// Escape in a submenu closes exactly that submenu: the levels above stay as they were, except
/// that the entry that opened it is no longer active and holds the keyboard focus.
pub proof fn lemma_escape_closes_one_level(v: MenuBarView, layouts: Seq<usize>, params: GlobalParameters)
    requires
        v.wf(),
        v.global.open,
        v.levels.len() >= 3,
        layouts.len() >= v.levels.len() - 1,
    ensures
        v.after_key(Key::Escape, layouts, params).1.consumed,
        v.after_key(Key::Escape, layouts, params).0.global.open,
        v.after_key(Key::Escape, layouts, params).0.levels == v.levels.take(v.levels.len() - 2).push(
            v.levels[v.levels.len() - 2].with_active(None).with_highlight(v.levels[v.levels.len() - 2].active),
        ),
{
    let d = v.levels.len() - 1;
    let w = v.after_key(Key::Escape, layouts, params).0;
    assert(w.levels =~= v.levels.take(d - 1).push(
        v.levels[d - 1].with_active(None).with_highlight(v.levels[d - 1].active),
    ));
}

/// Opening by pointer at level `m` never changes the levels above it, and keeps level `m` open.
pub proof fn lemma_pointer_open_keeps_upper_levels(v: MenuBarView, m: int, hovered: Seq<bool>)
    requires
        0 <= m < v.levels.len(),
    ensures
        v.try_open(m, hovered).levels.len() > m,
        forall|k: int| 0 <= k < m ==> #[trigger] v.try_open(m, hovered).levels[k] == v.levels[k],
{
}

/// Applies a sequence of scheduling calls: `Some(t)` stands for `schedule(t)`, `None` for
/// `clear_task()`.
pub open spec fn apply_tasks(g: GlobalState, calls: Seq<Option<MenuBarTask>>) -> GlobalState
    decreases calls.len(),
{
    if calls.len() == 0 {
        g
    } else {
        apply_tasks(g, calls.drop_last()).with_task(calls.last())
    }
}

/// After any sequence of `schedule` and `clear_task` calls, the task is what the last call set
/// (or what it was, for no call), and nothing else in the flags has changed.
pub proof fn lemma_task_sequence(g: GlobalState, calls: Seq<Option<MenuBarTask>>)
    ensures
        apply_tasks(g, calls).task == (if calls.len() == 0 {
            g.task
        } else {
            calls.last()
        }),
        apply_tasks(g, calls).with_task(g.task) == g,
    decreases calls.len(),
{
    if calls.len() > 0 {
        lemma_task_sequence(g, calls.drop_last());
    }
}

proof fn lemma_resolve_child_focused(v: MenuBarView, m: int, input: OverlayInput, records: Seq<crate::overlay::StepRecord>, effects: crate::state::Effects)
    requires
        0 <= m < v.levels.len(),
    ensures
        v.resolve(m, RecEvent::Event, input, records, effects).0 == v,
        v.resolve(m, RecEvent::Event, input, records, effects).1 == RecEvent::Event,
    decreases m,
{
    if m >= 1 {
        let (v1, record, e1) = v.step_at(m, RecEvent::Event, input);
        assert(record.step == MenuStep::ChildFocused);
        assert(v1 == v);
        lemma_resolve_child_focused(v1, m - 1, input, records.push(record), effects.merge(e1));
    }
}

/// While the tree is keyboard driven, the menus ignore the cursor: whatever was measured of it
/// (where it is relative to each menu, over which entries, whether it is over the bar), they
/// decide the same.
pub proof fn lemma_keyboard_ignores_cursor(
    v: MenuBarView,
    a: OverlayInput,
    b: OverlayInput,
    a_cursor: bool,
    a_over_bar: bool,
    b_cursor: bool,
    b_over_bar: bool,
    left_release: bool,
)
    requires
        v.global.keyboard_nav,
        a.geometry.len() == b.geometry.len(),
        a.left_press == b.left_press,
        a.params == b.params,
    ensures
        v.after_overlay(a, a_cursor, a_over_bar, left_release) == v.after_overlay(b, b_cursor, b_over_bar, left_release),
{
    assert(hidden_input(a).geometry =~= hidden_input(b).geometry);
    assert(hidden_input(a) == hidden_input(b));
}

/// While the tree is keyboard driven, or the cursor is gone, an event leaves the state as it is
/// and the roots are redrawn with the path highlight, unless a release carries a scheduled close:
/// a keyboard-opened submenu is not torn down because of where the cursor is.
pub proof fn lemma_hidden_cursor_keeps_path(
    v: MenuBarView,
    input: OverlayInput,
    cursor_available: bool,
    over_bar: bool,
    left_release: bool,
)
    requires
        v.wf(),
        v.global.open,
        v.levels.len() >= 2,
        v.global.keyboard_nav || !cursor_available,
        input.geometry.len() >= v.levels.len() - 1,
        !(left_release && v.global.task == Some(MenuBarTask::CloseOnClick)),
    ensures
        v.after_overlay(input, cursor_available, over_bar, left_release).0 == v,
        v.after_overlay(input, cursor_available, over_bar, left_release).3,
{
    let d = v.levels.len() - 1;
    lemma_resolve_child_focused(v, d, input, Seq::empty(), crate::state::Effects::spec_none());
    lemma_resolve_child_focused(v, d, hidden_input(input), Seq::empty(), crate::state::Effects::spec_none());
}

/// A keyboard-driven tree survives every event that does not hand control back to the pointer
/// (a press or a cursor movement) or resize the window: whatever the cursor does, the open path
/// stays as it is, unless a release carries a scheduled close.
pub proof fn lemma_keyboard_tree_survives_events(
    v: MenuBarView,
    event: BarEvent,
    input: OverlayInput,
    cursor_available: bool,
    over_bar: bool,
)
    requires
        v.wf(),
        v.global.open,
        v.levels.len() >= 2,
        v.global.keyboard_nav,
        event != BarEvent::LeftPressed,
        event != BarEvent::CursorMoved,
        event != BarEvent::Resized,
        !(event == BarEvent::LeftReleased && v.global.task == Some(MenuBarTask::CloseOnClick)),
        input.geometry.len() >= v.levels.len() - 1,
    ensures
        v.overlay_begin(event).1,
        v.overlay_begin(event).0.after_overlay(input, cursor_available, over_bar, event == BarEvent::LeftReleased).0.global.open,
        v.overlay_begin(event).0.after_overlay(input, cursor_available, over_bar, event == BarEvent::LeftReleased).0.levels
            == v.levels,
{
    let w = v.overlay_begin(event).0;
    lemma_hidden_cursor_keeps_path(w, input, cursor_available, over_bar, event == BarEvent::LeftReleased);
}

/// Moving the mouse hands control back to the pointer: over an open tree it ends keyboard
/// navigation, and over a closed bar activated from the keyboard it leaves that activation
/// (unless moving over the bar opens the tree on hover).
pub proof fn lemma_mouse_move_ends_keyboard(
    v: MenuBarView,
    over_bar: bool,
    hovered: Seq<bool>,
    scrollable: bool,
    params: GlobalParameters,
)
    requires
        v.wf(),
    ensures
        v.global.open && v.levels.len() >= 2 ==> !v.overlay_begin(BarEvent::CursorMoved).0.global.keyboard_nav,
        !v.global.open && v.global.bar_focused && !(params.open_on_hover && over_bar) ==> {
            let w = v.after_bar_event(BarEvent::CursorMoved, over_bar, hovered, scrollable, params).0;
            &&& !w.global.bar_focused
            &&& !w.global.keyboard_nav
            &&& w.levels[0].keyboard_highlight is None
        },
{
}

/// While the tree is open, moving over a root that carries a menu opens that root's menu, even
/// without `open_on_hover`.
pub proof fn lemma_hover_switches_root(v: MenuBarView, hovered: Seq<bool>, scrollable: bool, params: GlobalParameters)
    requires
        v.wf(),
        v.global.open,
        v.hovered_entry(0, hovered) matches Some(j) && 0 <= j < v.roots.len() && v.roots[j].opens(),
    ensures
        v.after_bar_event(BarEvent::CursorMoved, true, hovered, scrollable, params).0.levels[0].active == Some(
            v.hovered_entry(0, hovered).unwrap() as usize,
        ),
        v.after_bar_event(BarEvent::CursorMoved, true, hovered, scrollable, params).0.levels.len() == 2,
{
    assert(v.items(0) == v.roots);
}

/// A root requested from outside opens on the next update, when it carries a menu.
pub proof fn lemma_request_open_opens(v: MenuBarView, idx: usize)
    requires
        v.wf(),
        idx < v.roots.len(),
        v.roots[idx as int].opens(),
    ensures
        v.with_global(GlobalState { pending_open: Some(idx), ..v.global }).after_pending().0.global.open,
        v.with_global(GlobalState { pending_open: Some(idx), ..v.global }).after_pending().0.global.pending_open is None,
        v.with_global(GlobalState { pending_open: Some(idx), ..v.global }).after_pending().0.levels.len() == 2,
        v.with_global(GlobalState { pending_open: Some(idx), ..v.global }).after_pending().0.levels[0].active == Some(idx),
{
    let w = v.with_global(GlobalState { pending_open: Some(idx), ..v.global });
    let g = GlobalState { pending_open: None, ..w.global };
    let x = MenuBarView { global: GlobalState { open: true, keyboard_nav: false, bar_focused: false, ..g }, ..w }.release_bar();
    assert(x.items(0) == x.roots);
}

/// Escape in the top menu (button up) closes the whole tree.
pub proof fn lemma_escape_top_closes(v: MenuBarView, layouts: Seq<usize>, params: GlobalParameters)
    requires
        v.wf(),
        v.global.open,
        v.levels.len() == 2,
        layouts.len() >= 1,
        !v.global.pressed,
    ensures
        v.after_key(Key::Escape, layouts, params).1.consumed,
        !v.after_key(Key::Escape, layouts, params).0.global.open,
        v.after_key(Key::Escape, layouts, params).0.levels.len() == 1,
{
}


/// The entry under the cursor lies in the visible slice of its menu: it is the first visible
/// position the cursor is over, counted from the start of the slice, and when no visible
/// position is hovered, there is none.
pub proof fn lemma_hovered_entry_in_slice(v: MenuBarView, m: int, hovered: Seq<bool>)
    requires
        0 <= m < v.levels.len(),
    ensures
        ({
            let lo = v.levels[m].slice.spec_range(v.items(m).len() as int).0;
            let hi = v.levels[m].slice.spec_range(v.items(m).len() as int).1;
            match v.hovered_entry(m, hovered) {
                Some(i) => {
                    &&& lo <= i < hi
                    &&& i - lo < hovered.len()
                    &&& hovered[i - lo]
                    &&& forall|k: int| lo <= k < i ==> !#[trigger] hovered[k - lo]
                },
                None => forall|j: int| 0 <= j < hi - lo && j < hovered.len() ==> !#[trigger] hovered[j],
            }
        }),
{
    let lo = v.levels[m].slice.spec_range(v.items(m).len() as int).0;
    let hi = v.levels[m].slice.spec_range(v.items(m).len() as int).1;
    lemma_first_true_bounds(hovered, hi - lo, 0);
    if let Some(i) = v.hovered_entry(m, hovered) {
        assert forall|k: int| lo <= k < i implies !#[trigger] hovered[k - lo] by {
            assert(0 <= k - lo < i - lo);
        }
    }
}

/// Activating (Enter or Space) the focused, laid-out leaf of the deepest menu clicks it, and the
/// tree closes exactly when the entry closes on click: by its own override when it has one,
/// else by the bar-wide policy (the mouse button being up).
pub proof fn lemma_activate_leaf_follows_entry_policy(
    v: MenuBarView,
    key: Key,
    layouts: Seq<usize>,
    params: GlobalParameters,
    i: usize,
)
    requires
        v.wf(),
        v.global.open,
        v.levels.len() >= 2,
        !v.global.pressed,
        key == Key::Enter || key == Key::Space,
        layouts.len() >= v.levels.len() - 1,
        v.levels[v.levels.len() - 1].keyboard_highlight == Some(i),
        !v.items(v.levels.len() - 1)[i as int].has_menu(),
        v.levels[v.levels.len() - 1].slice.start_index <= i <= v.levels[v.levels.len() - 1].slice.end_index,
        i - v.levels[v.levels.len() - 1].slice.start_index < layouts[v.levels.len() - 2],
    ensures
        ({
            let d = v.levels.len() - 1;
            let close = match v.items(d)[i as int].close_on_click {
                Some(c) => c,
                None => params.close_on_item_click,
            };
            let (w, r) = v.after_key(key, layouts, params);
            &&& r.consumed
            &&& r.click == Some(EntryRef { level: d as usize, index: i })
            &&& w.global.open == !close
            &&& close ==> w.levels.len() == 1
            &&& !close ==> w.levels == v.levels
        }),
{
    let d = v.levels.len() - 1;
    let v1 = v.with_global(GlobalState { keyboard_nav: true, ..v.global });
    assert(v1.items(d) == v.items(d));
    assert(level_wf(v.roots, v.levels, d));
}

/// On a closed bar, Enter and Space do what Down does; and with the bar activated from the
/// keyboard, they open the focused root's menu for the keyboard.
pub proof fn lemma_bar_enter_space_open_like_down(v: MenuBarView, h: usize)
    ensures
        v.after_bar_key(Key::Enter) == v.after_bar_key(Key::ArrowDown),
        v.after_bar_key(Key::Space) == v.after_bar_key(Key::ArrowDown),
        (v.global.bar_focused && v.levels.len() == 1 && v.levels[0].keyboard_highlight == Some(h) && h
            < v.roots.len() && v.roots[h as int].opens()) ==> {
            let w = v.after_bar_key(Key::Enter).0;
            &&& w.global.open
            &&& w.global.keyboard_nav
            &&& !w.global.bar_focused
            &&& w.levels.len() == 2
            &&& w.levels[0].active == Some(h)
        },
{
}

/// Rebuilding keeps the open path as far as it still fits the new entries: whenever the active
/// entries of the first `c` levels still open menus, those levels keep their active entry and
/// their visible slice, and the path still reaches level `c`.
pub proof fn lemma_diff_keeps_valid_prefix(roots: Seq<ItemSpec>, levels: Seq<MenuState>, c: int)
    requires
        0 <= c < levels.len(),
        forall|k: int| 0 <= k < c ==> #[trigger] active_valid(roots, levels, k),
    ensures
        reconcile(roots, levels).len() > c,
        forall|k: int| 0 <= k < c ==> #[trigger] reconcile(roots, levels)[k].active == levels[k].active,
        forall|k: int| 0 <= k < c ==> #[trigger] reconcile(roots, levels)[k].slice == levels[k].slice,
{
    lemma_first_broken_at_least(roots, levels, 0, c);
    let f = first_broken(roots, levels, 0);
    lemma_first_broken(roots, levels, 0);
    let cut = levels.take(f + 1).update(f, levels[f].with_active(None));
    assert(reconcile(roots, levels).len() == cut.len());
    assert forall|k: int| 0 <= k < c implies #[trigger] reconcile(roots, levels)[k].active == levels[k].active
        && reconcile(roots, levels)[k].slice == levels[k].slice by {
        assert(cut[k] == levels[k]);
    }
}

proof fn lemma_first_broken_at_least(roots: Seq<ItemSpec>, levels: Seq<MenuState>, j: int, c: int)
    requires
        0 <= j <= c < levels.len(),
        forall|k: int| 0 <= k < c ==> #[trigger] active_valid(roots, levels, k),
    ensures
        first_broken(roots, levels, j) >= c,
    decreases c - j,
{
    lemma_first_broken(roots, levels, j);
    if j < c {
        assert(active_valid(roots, levels, j));
        lemma_first_broken_at_least(roots, levels, j + 1, c);
    }
}


/// Position `j` lies strictly between `a` and `t` when stepping through the roots `[lo, hi]` from
/// `a` in the given direction, wrapping around (when `t` is `a`, every other position does).
pub open spec fn cyclically_between(a: int, j: int, t: int, forward: bool) -> bool {
    if forward {
        if a < t { a < j < t } else { j > a || j < t }
    } else {
        if t < a { t < j < a } else { j < a || j > t }
    }
}

/// Position `j` has been passed when stepping from `a` to `cur` (`cur` included, `a` not).
spec fn passed(a: int, j: int, cur: int, forward: bool) -> bool {
    if cur == a {
        false
    } else {
        cyclically_between(a, j, cur, forward) || j == cur
    }
}

/// The number of steps from `cur` back to `a` through `[lo, hi]` in the given direction (a full
/// round when `cur` is `a`).
spec fn steps_back(lo: int, hi: int, a: int, cur: int, forward: bool) -> int {
    if forward {
        if cur < a { a - cur } else { a - cur + (hi - lo + 1) }
    } else {
        if cur > a { cur - a } else { cur - a + (hi - lo + 1) }
    }
}

proof fn lemma_switch_scan_first(
    roots: Seq<ItemSpec>,
    lo: int,
    hi: int,
    a: int,
    cur: int,
    forward: bool,
    remaining: int,
)
    requires
        0 <= lo <= a <= hi < roots.len(),
        lo <= cur <= hi,
        roots[a].has_menu(),
        remaining == steps_back(lo, hi, a, cur, forward),
        forall|j: int| lo <= j <= hi && passed(a, j, cur, forward) ==> !#[trigger] roots[j].has_menu(),
    ensures
        switch_scan(roots, lo, hi, cur, forward, remaining) matches Some(t) && lo <= t <= hi
            && roots[t].has_menu() && forall|j: int|
            lo <= j <= hi && cyclically_between(a, j, t, forward) ==> !#[trigger] roots[j].has_menu(),
    decreases remaining,
{
    let next = if forward {
        if cur >= hi { lo } else { cur + 1 }
    } else {
        if cur <= lo { hi } else { cur - 1 }
    };
    assert forall|j: int| lo <= j <= hi && cyclically_between(a, j, next, forward) implies passed(a, j, cur, forward) by {}
    if !roots[next].has_menu() {
        assert(next != a);
        assert forall|j: int| lo <= j <= hi && passed(a, j, next, forward) implies !#[trigger] roots[j].has_menu() by {
            if j != next {
                assert(passed(a, j, cur, forward));
            }
        }
        lemma_switch_scan_first(roots, lo, hi, a, next, forward, remaining - 1);
    }
}

/// Moving from the top menu to the adjacent root (Right or Left past the ends of the top menu)
/// opens the first visible root with a menu met when stepping from the active root in that
/// direction, wrapping around the visible roots; so when another visible root carries a menu, a
/// different root opens.
pub proof fn lemma_switch_root_first_with_menu(v: MenuBarView, forward: bool)
    requires
        v.wf(),
        v.global.open,
        v.levels.len() >= 2,
        v.levels[0].active matches Some(a) && v.levels[0].slice.start_index <= a <= v.levels[0].slice.end_index,
    ensures
        ({
            let n = v.roots.len() as int;
            let lo = if v.levels[0].slice.start_index < n - 1 { v.levels[0].slice.start_index as int } else { n - 1 };
            let hi = if v.levels[0].slice.end_index < n - 1 { v.levels[0].slice.end_index as int } else { n - 1 };
            let a = v.levels[0].active.unwrap() as int;
            let w = v.switch_root(forward).0;
            &&& exists|t: int| {
                &&& lo <= t <= hi
                &&& #[trigger] v.roots[t].has_menu()
                &&& forall|j: int| lo <= j <= hi && cyclically_between(a, j, t, forward) ==> !#[trigger] v.roots[j].has_menu()
                &&& w.levels[0].active == (if v.roots[t].opens() { Some(t as usize) } else { None })
            }
            &&& (exists|b: int| lo <= b <= hi && b != a && #[trigger] v.roots[b].has_menu()) ==> w.levels[0].active != Some(a as usize)
        }),
{
    let n = v.roots.len() as int;
    let lo = if v.levels[0].slice.start_index < n - 1 { v.levels[0].slice.start_index as int } else { n - 1 };
    let hi = if v.levels[0].slice.end_index < n - 1 { v.levels[0].slice.end_index as int } else { n - 1 };
    let a = v.levels[0].active.unwrap() as int;
    assert(level_wf(v.roots, v.levels, 0));
    assert(v.items(0) == v.roots);
    lemma_switch_scan_first(v.roots, lo, hi, a, a, forward, hi - lo + 1);
    let t = switch_scan(v.roots, lo, hi, a, forward, hi - lo + 1).unwrap();
    let w = v.switch_root(forward).0;
    assert(v.release_bar().items(0) == v.roots);
    assert(w.levels[0].active == (if v.roots[t].opens() { Some(t as usize) } else { None }));
    if exists|b: int| lo <= b <= hi && b != a && #[trigger] v.roots[b].has_menu() {
        let b = choose|b: int| lo <= b <= hi && b != a && #[trigger] v.roots[b].has_menu();
        if t == a {
            assert(cyclically_between(a, b, t, forward));
        }
    }
}

} // verus!
