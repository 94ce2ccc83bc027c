use iced_menu_bar::bar::BarEvent;
use iced_menu_bar::common::RecEvent;
use iced_menu_bar::item::ItemSpec;
use iced_menu_bar::keys::Key;
use iced_menu_bar::common::{MenuSlice, PathHighlight};
use iced_menu_bar::overlay::{menu_step, path_cursor, MenuGeometry, MenuStep, PathCursor};
use iced_menu_bar::state::{GlobalParameters, MenuBarState, MenuBarTask};

fn leaf() -> ItemSpec {
    ItemSpec::new()
}

fn roots() -> Vec<ItemSpec> {
    vec![
        ItemSpec::with_menu(vec![leaf(), ItemSpec::with_menu(vec![leaf(), leaf()]), leaf().keep_open()]),
        ItemSpec::with_menu(vec![leaf()]),
    ]
}

fn opened() -> MenuBarState {
    let mut s = MenuBarState::new(roots());
    s.request_open(0);
    s.consume_pending();
    s
}

fn away() -> MenuGeometry {
    MenuGeometry {
        over_menu: false,
        over_parent: false,
        in_safe_triangle: false,
        over_previous: false,
        over_safe_bounds: false,
    }
}

fn on_menu() -> MenuGeometry {
    MenuGeometry { over_menu: true, ..away() }
}

fn hov(n: usize, i: usize) -> Vec<bool> {
    (0..n).map(|j| j == i).collect()
}

#[test]
fn step_decisions_follow_the_cursor() {
    assert_eq!(menu_step(RecEvent::Event, away(), false), MenuStep::ChildFocused);
    assert_eq!(menu_step(RecEvent::Pass, away(), false), MenuStep::ChildPassed);
    assert_eq!(menu_step(RecEvent::Close, on_menu(), false), MenuStep::Focus);
    let parent = MenuGeometry { over_parent: true, ..away() };
    assert_eq!(menu_step(RecEvent::Close, parent, false), MenuStep::ParentHover);
    assert_eq!(menu_step(RecEvent::Close, away(), true), MenuStep::Linger);
    let tri = MenuGeometry { in_safe_triangle: true, ..away() };
    assert_eq!(menu_step(RecEvent::Close, tri, false), MenuStep::Linger);
    let near = MenuGeometry { over_safe_bounds: true, ..away() };
    assert_eq!(menu_step(RecEvent::Close, near, false), MenuStep::Linger);
    let near_prev = MenuGeometry { over_safe_bounds: true, over_previous: true, ..away() };
    assert_eq!(menu_step(RecEvent::Close, near_prev, false), MenuStep::Dismiss);
    assert_eq!(menu_step(RecEvent::Close, away(), false), MenuStep::Dismiss);
}

#[test]
fn begin_tracks_the_button_and_resize_closes() {
    let mut s = opened();
    let (go, _) = s.overlay_begin(BarEvent::LeftPressed);
    assert!(go && s.global().pressed);
    let (go, e) = s.overlay_begin(BarEvent::LeftReleased);
    assert!(go && !s.global().pressed && e.request_redraw);
    let (go, e) = s.overlay_begin(BarEvent::Resized);
    assert!(!go && e.close_menus);
    assert!(!s.global().open);
    let (go, _) = s.overlay_begin(BarEvent::CursorMoved);
    assert!(!go);
}

#[test]
fn hovering_a_submenu_entry_opens_it() {
    let p = GlobalParameters::new();
    let mut s = opened();
    s.overlay_begin(BarEvent::CursorMoved);
    let r = s.overlay_resolve(&vec![on_menu()], &vec![hov(3, 1)], true, false, false, false, &p);
    assert_eq!(s.depth(), 3);
    assert_eq!(s.level(1).active, Some(1));
    assert_eq!(r.steps.len(), 1);
    assert_eq!(r.steps[0].step, MenuStep::Focus);
    assert_eq!(r.steps[0].level, 1);
    assert!(r.redraw_roots);
    assert!(r.effects.capture_event);
    assert_eq!(r.effects.fresh_from, Some(2));
}

#[test]
fn click_away_lingers_while_held_and_dismisses_on_release() {
    let p = GlobalParameters::new();
    let mut s = opened();
    s.overlay_begin(BarEvent::LeftPressed);
    let r = s.overlay_resolve(&vec![away()], &vec![vec![false; 3]], true, false, true, false, &p);
    assert!(s.global().open);
    assert_eq!(r.steps[0].step, MenuStep::Linger);
    s.overlay_begin(BarEvent::LeftReleased);
    let r = s.overlay_resolve(&vec![away()], &vec![vec![false; 3]], true, false, false, true, &p);
    assert!(!s.global().open);
    assert_eq!(s.depth(), 1);
    assert_eq!(r.steps[0].step, MenuStep::Dismiss);
    assert!(r.effects.close_menus);
}

#[test]
fn leaving_a_menu_for_the_bar_keeps_the_tree_open() {
    let p = GlobalParameters::new();
    let mut s = opened();
    s.overlay_begin(BarEvent::CursorMoved);
    let r = s.overlay_resolve(&vec![away()], &vec![vec![false; 3]], true, true, false, false, &p);
    assert!(s.global().open);
    assert_eq!(s.depth(), 1);
    assert!(!r.redraw_roots);
}

#[test]
fn cursor_on_the_parent_root_passes_the_event_up() {
    let p = GlobalParameters::new();
    let mut s = opened();
    let parent = MenuGeometry { over_parent: true, ..away() };
    let r = s.overlay_resolve(&vec![parent], &vec![vec![false; 3]], true, true, false, false, &p);
    assert_eq!(r.steps[0].step, MenuStep::ParentHover);
    assert!(!r.redraw_roots);
    assert!(!r.effects.capture_event);
    assert_eq!(s.depth(), 2);
}

#[test]
fn clicking_an_entry_closes_on_release_by_default() {
    let p = GlobalParameters::new();
    let mut s = opened();
    s.overlay_begin(BarEvent::LeftPressed);
    s.overlay_resolve(&vec![on_menu()], &vec![hov(3, 0)], true, false, true, false, &p);
    assert_eq!(s.global().task, Some(MenuBarTask::CloseOnClick));
    s.overlay_begin(BarEvent::LeftReleased);
    let r = s.overlay_resolve(&vec![on_menu()], &vec![hov(3, 0)], true, false, false, true, &p);
    assert!(!s.global().open);
    assert!(!r.redraw_roots);
}

#[test]
fn clicking_a_kept_open_entry_does_not_close() {
    let p = GlobalParameters::new();
    let mut s = opened();
    s.overlay_begin(BarEvent::LeftPressed);
    s.overlay_resolve(&vec![on_menu()], &vec![hov(3, 2)], true, false, true, false, &p);
    assert_eq!(s.global().task, None);
    s.overlay_begin(BarEvent::LeftReleased);
    s.overlay_resolve(&vec![on_menu()], &vec![hov(3, 2)], true, false, false, true, &p);
    assert!(s.global().open);
}

#[test]
fn hidden_cursor_keeps_keyboard_opened_menus() {
    let p = GlobalParameters::new();
    let mut s = opened();
    let r = s.overlay_resolve(&vec![away()], &vec![vec![false; 3]], false, false, false, false, &p);
    assert_eq!(r.steps[0].step, MenuStep::ChildFocused);
    assert!(r.redraw_roots);
    assert!(s.global().open);
    assert_eq!(s.depth(), 2);
}

#[test]
fn nested_menus_close_from_the_deepest_up() {
    let p = GlobalParameters::new();
    let mut s = opened();
    s.overlay_resolve(&vec![on_menu()], &vec![hov(3, 1)], true, false, false, false, &p);
    assert_eq!(s.depth(), 3);
    let r = s.overlay_resolve(&vec![away(), away()], &vec![vec![false; 3], vec![false; 2]], true, false, false, false, &p);
    assert_eq!(r.steps.len(), 2);
    assert_eq!(r.steps[0].level, 2);
    assert_eq!(r.steps[0].step, MenuStep::Dismiss);
    assert_eq!(r.steps[1].level, 1);
    assert_eq!(r.steps[1].step, MenuStep::Dismiss);
    assert!(!s.global().open);
}

#[test]
fn deeper_menu_without_layout_closes_to_its_parent() {
    let p = GlobalParameters::new();
    let mut s = opened();
    s.overlay_resolve(&vec![on_menu()], &vec![hov(3, 1)], true, false, false, false, &p);
    assert_eq!(s.depth(), 3);
    let r = s.overlay_resolve(&vec![on_menu()], &vec![vec![false; 3]], true, false, false, false, &p);
    assert_eq!(r.steps.len(), 1);
    assert_eq!(r.steps[0].step, MenuStep::Focus);
    assert!(s.global().open);
}

#[test]
fn mouse_movement_ends_keyboard_navigation_of_the_tree() {
    let p = GlobalParameters::new();
    let mut s = opened();
    let k = s.handle_key(Key::ArrowDown, &vec![3], &p);
    assert!(k.consumed);
    assert!(s.global().keyboard_nav);
    let (go, _) = s.overlay_begin(BarEvent::CursorMoved);
    assert!(go);
    assert!(!s.global().keyboard_nav);
    assert!(s.global().open);
}

#[test]
fn click_in_the_grace_margin_still_dismisses() {
    let p = GlobalParameters::new();
    let mut s = opened();
    let near = MenuGeometry { over_safe_bounds: true, in_safe_triangle: true, ..away() };
    s.overlay_begin(BarEvent::LeftPressed);
    let r = s.overlay_resolve(&vec![near], &vec![vec![false; 3]], true, false, true, false, &p);
    assert_eq!(r.steps[0].step, MenuStep::Linger);
    assert_eq!(s.global().task, Some(MenuBarTask::CloseOnClick));
    assert!(s.global().open);
    s.overlay_begin(BarEvent::LeftReleased);
    let r = s.overlay_resolve(&vec![near], &vec![vec![false; 3]], true, false, false, true, &p);
    assert_eq!(r.steps[0].step, MenuStep::Linger);
    assert!(!s.global().open);
    assert_eq!(s.depth(), 1);
    assert!(r.effects.close_menus);
}

#[test]
fn click_on_the_bar_is_left_to_the_bar() {
    let p = GlobalParameters::new();
    let mut s = opened();
    let on_bar = MenuGeometry { over_previous: true, ..away() };
    s.overlay_begin(BarEvent::LeftPressed);
    s.overlay_resolve(&vec![on_bar], &vec![vec![false; 3]], true, true, true, false, &p);
    assert_eq!(s.global().task, None);
    assert!(s.global().open);
}

#[test]
fn click_on_a_menu_further_up_is_judged_by_that_menu() {
    let p = GlobalParameters::new();
    let mut s = opened();
    s.overlay_resolve(&vec![on_menu()], &vec![hov(3, 1)], true, false, false, false, &p);
    assert_eq!(s.depth(), 3);
    let over_parent_menu = MenuGeometry { over_previous: true, ..away() };
    // On the kept-open entry of the parent menu: its override keeps the tree open.
    s.overlay_begin(BarEvent::LeftPressed);
    s.overlay_resolve(&vec![on_menu(), over_parent_menu], &vec![hov(3, 2), vec![false; 2]], true, false, true, false, &p);
    assert_eq!(s.global().task, None);
    // On a plain entry of the parent menu: the bar-wide policy closes the tree.
    let mut s = opened();
    s.overlay_resolve(&vec![on_menu()], &vec![hov(3, 1)], true, false, false, false, &p);
    s.overlay_begin(BarEvent::LeftPressed);
    s.overlay_resolve(&vec![on_menu(), over_parent_menu], &vec![hov(3, 0), vec![false; 2]], true, false, true, false, &p);
    assert_eq!(s.global().task, Some(MenuBarTask::CloseOnClick));
    // On the parent menu's background: the background-click policy (off by default) decides.
    let mut s = opened();
    s.overlay_resolve(&vec![on_menu()], &vec![hov(3, 1)], true, false, false, false, &p);
    s.overlay_begin(BarEvent::LeftPressed);
    s.overlay_resolve(&vec![on_menu(), over_parent_menu], &vec![vec![false; 3], vec![false; 2]], true, false, true, false, &p);
    assert_eq!(s.global().task, None);
    let bg = GlobalParameters::new().close_on_background_click(true);
    s.overlay_resolve(&vec![on_menu(), over_parent_menu], &vec![vec![false; 3], vec![false; 2]], true, false, true, false, &bg);
    assert_eq!(s.global().task, Some(MenuBarTask::CloseOnClick));
}

#[test]
fn keyboard_driven_tree_ignores_the_measured_cursor() {
    let p = GlobalParameters::new();
    let mut s = opened();
    s.handle_key(Key::ArrowDown, &vec![3], &p);
    assert!(s.global().keyboard_nav);
    // The cursor is reported off the menu and off the bar: it is set aside.
    let r = s.overlay_resolve(&vec![away()], &vec![vec![false; 3]], true, false, false, false, &p);
    assert_eq!(r.steps[0].step, MenuStep::ChildFocused);
    assert!(r.redraw_roots);
    assert!(s.global().open);
    assert_eq!(s.depth(), 2);
    assert_eq!(s.level(0).active, Some(0));
}

#[test]
fn path_cursor_follows_the_highlight_style() {
    let slice = MenuSlice { start_index: 2, end_index: 6 };
    assert_eq!(path_cursor(None, slice, PathHighlight::Hover), PathCursor::Pointer);
    assert_eq!(path_cursor(Some(4), slice, PathHighlight::Fill), PathCursor::Hidden);
    assert_eq!(path_cursor(Some(4), slice, PathHighlight::Hover), PathCursor::Centered(2));
    assert_eq!(path_cursor(Some(1), slice, PathHighlight::Hover), PathCursor::Pointer);
}
