use iced_menu_bar::bar::{BarEvent, BarHighlight};
use iced_menu_bar::common::{Dismiss, MenuSlice, PathHighlight};
use iced_menu_bar::item::ItemSpec;
use iced_menu_bar::keys::Key;
use iced_menu_bar::state::{GlobalParameters, MenuBarState, MenuBarTask};
use iced_menu_bar::style::Status;

fn leaf() -> ItemSpec {
    ItemSpec::new()
}

/// File (New, Open, Recent ▸ (a, b), separator, Exit) · Edit (Cut, Copy kept open, Paste) ·
/// Help (no menu) · Empty (an empty menu)
fn roots() -> Vec<ItemSpec> {
    vec![
        ItemSpec::with_menu(vec![
            leaf(),
            leaf(),
            ItemSpec::with_menu(vec![leaf(), leaf()]),
            ItemSpec::inert(),
            leaf(),
        ]),
        ItemSpec::with_menu(vec![leaf(), leaf().keep_open(), leaf()]),
        leaf(),
        ItemSpec::with_menu(vec![]),
    ]
}

fn hov(n: usize, i: usize) -> Vec<bool> {
    (0..n).map(|j| j == i).collect()
}

fn nowhere(n: usize) -> Vec<bool> {
    vec![false; n]
}

fn click_root(s: &mut MenuBarState, i: usize, p: &GlobalParameters) {
    s.bar_event(BarEvent::LeftPressed, true, &hov(4, i), false, p);
    s.bar_event(BarEvent::LeftReleased, true, &hov(4, i), false, p);
}

#[test]
fn new_bar_is_closed() {
    let s = MenuBarState::new(roots());
    assert_eq!(s.depth(), 1);
    assert!(!s.global().open);
    assert_eq!(s.level(0).active, None);
    assert_eq!(s.level(0).slice, MenuSlice::everything());
}

#[test]
fn press_schedules_opening_and_release_opens_the_root() {
    let p = GlobalParameters::new();
    let mut s = MenuBarState::new(roots());
    let out = s.bar_event(BarEvent::LeftPressed, true, &hov(4, 0), false, &p);
    assert!(out.effects.capture_event);
    assert!(s.global().pressed);
    assert_eq!(s.global().task, Some(MenuBarTask::OpenOnClick));
    assert!(!s.global().open);
    let out = s.bar_event(BarEvent::LeftReleased, true, &hov(4, 0), false, &p);
    assert!(s.global().open);
    assert!(!s.global().pressed);
    assert_eq!(s.global().task, None);
    assert_eq!(s.depth(), 2);
    assert_eq!(s.level(0).active, Some(0));
    assert_eq!(s.level(0).keyboard_highlight, Some(0));
    assert!(out.effects.invalidate_layout && out.effects.request_redraw);
    assert_eq!(out.effects.fresh_from, Some(1));
}

#[test]
fn press_off_the_bar_is_ignored_by_the_bar() {
    let p = GlobalParameters::new();
    let mut s = MenuBarState::new(roots());
    let out = s.bar_event(BarEvent::LeftPressed, false, &nowhere(4), false, &p);
    assert!(!out.effects.capture_event);
    assert!(!s.global().pressed);
    assert_eq!(s.global().task, None);
}

#[test]
fn release_over_root_without_menu_opens_the_tree_with_nothing_active() {
    let p = GlobalParameters::new();
    let mut s = MenuBarState::new(roots());
    click_root(&mut s, 2, &p);
    assert!(s.global().open);
    assert_eq!(s.depth(), 1);
    assert_eq!(s.level(0).active, None);
}

#[test]
fn root_with_empty_menu_opens_nothing() {
    let p = GlobalParameters::new();
    let mut s = MenuBarState::new(roots());
    click_root(&mut s, 3, &p);
    assert!(s.global().open);
    assert_eq!(s.depth(), 1);
    assert_eq!(s.level(0).active, None);
}

#[test]
fn moving_across_roots_switches_menus_while_open() {
    let p = GlobalParameters::new();
    let mut s = MenuBarState::new(roots());
    click_root(&mut s, 0, &p);
    let out = s.bar_event(BarEvent::CursorMoved, true, &hov(4, 1), false, &p);
    assert_eq!(s.level(0).active, Some(1));
    assert_eq!(s.level(0).keyboard_highlight, Some(1));
    assert_eq!(s.depth(), 2);
    assert!(out.effects.capture_event);
    assert!(out.effects.invalidate_layout);
}

#[test]
fn moving_off_the_bar_with_button_up_dismisses() {
    let p = GlobalParameters::new();
    let mut s = MenuBarState::new(roots());
    click_root(&mut s, 0, &p);
    let out = s.bar_event(BarEvent::CursorMoved, false, &nowhere(4), false, &p);
    assert!(!s.global().open);
    assert_eq!(s.depth(), 1);
    assert_eq!(s.level(0).active, None);
    assert!(out.effects.close_menus);
}

#[test]
fn clicking_the_open_root_closes_the_tree_by_default() {
    let p = GlobalParameters::new();
    let mut s = MenuBarState::new(roots());
    click_root(&mut s, 0, &p);
    s.bar_event(BarEvent::LeftPressed, true, &hov(4, 0), false, &p);
    assert_eq!(s.global().task, Some(MenuBarTask::CloseOnClick));
    let out = s.bar_event(BarEvent::LeftReleased, true, &hov(4, 0), false, &p);
    assert!(!s.global().open);
    assert_eq!(s.depth(), 1);
    assert!(out.effects.close_menus);
}

#[test]
fn manual_dismiss_keeps_the_tree_open_on_root_click() {
    let p = GlobalParameters::new().dismiss(Dismiss::Manual);
    assert!(!p.close_on_item_click);
    let mut s = MenuBarState::new(roots());
    click_root(&mut s, 0, &p);
    s.bar_event(BarEvent::LeftPressed, true, &hov(4, 0), false, &p);
    assert_eq!(s.global().task, None);
    s.bar_event(BarEvent::LeftReleased, true, &hov(4, 0), false, &p);
    assert!(s.global().open);
}

#[test]
fn background_click_closes_only_when_asked() {
    let mut s = MenuBarState::new(roots());
    let p = GlobalParameters::new();
    click_root(&mut s, 0, &p);
    s.bar_event(BarEvent::LeftPressed, true, &nowhere(4), false, &p);
    assert_eq!(s.global().task, None);
    let q = GlobalParameters::new().close_on_background_click(true);
    s.bar_event(BarEvent::LeftPressed, true, &nowhere(4), false, &q);
    assert_eq!(s.global().task, Some(MenuBarTask::CloseOnClick));
}

#[test]
fn hover_opens_only_with_open_on_hover() {
    let p = GlobalParameters::new();
    let mut s = MenuBarState::new(roots());
    let out = s.bar_event(BarEvent::CursorMoved, true, &hov(4, 1), false, &p);
    assert!(!s.global().open);
    assert!(out.effects.request_redraw);
    let q = GlobalParameters::new().open_on_hover(true);
    assert!(q.open_on_hover);
    s.bar_event(BarEvent::CursorMoved, true, &hov(4, 1), false, &q);
    assert!(s.global().open);
    assert_eq!(s.level(0).active, Some(1));
}

#[test]
fn wheel_scrolls_only_a_wide_bar_under_the_cursor() {
    let p = GlobalParameters::new();
    let mut s = MenuBarState::new(roots());
    assert!(s.bar_event(BarEvent::WheelScrolled, true, &nowhere(4), true, &p).scroll);
    assert!(!s.bar_event(BarEvent::WheelScrolled, true, &nowhere(4), false, &p).scroll);
    assert!(!s.bar_event(BarEvent::WheelScrolled, false, &nowhere(4), true, &p).scroll);
    assert!(s.bar_event(BarEvent::Resized, false, &nowhere(4), true, &p).clamp_scroll);
}

#[test]
fn alt_activates_the_bar_and_arrows_move_across_roots() {
    let p = GlobalParameters::new();
    let mut s = MenuBarState::new(roots());
    let out = s.bar_event(BarEvent::KeyPressed(Key::Alt), false, &nowhere(4), false, &p);
    assert!(out.effects.capture_event);
    assert!(s.global().bar_focused && s.global().keyboard_nav);
    assert_eq!(s.level(0).keyboard_highlight, Some(0));
    s.bar_event(BarEvent::KeyPressed(Key::ArrowRight), false, &nowhere(4), false, &p);
    assert_eq!(s.level(0).keyboard_highlight, Some(1));
    s.bar_event(BarEvent::KeyPressed(Key::ArrowRight), false, &nowhere(4), false, &p);
    s.bar_event(BarEvent::KeyPressed(Key::ArrowRight), false, &nowhere(4), false, &p);
    assert_eq!(s.level(0).keyboard_highlight, Some(3));
    s.bar_event(BarEvent::KeyPressed(Key::ArrowRight), false, &nowhere(4), false, &p);
    assert_eq!(s.level(0).keyboard_highlight, Some(0));
    s.bar_event(BarEvent::KeyPressed(Key::ArrowLeft), false, &nowhere(4), false, &p);
    assert_eq!(s.level(0).keyboard_highlight, Some(3));
    s.bar_event(BarEvent::KeyPressed(Key::Escape), false, &nowhere(4), false, &p);
    assert!(!s.global().bar_focused && !s.global().keyboard_nav);
    assert_eq!(s.level(0).keyboard_highlight, None);
}

#[test]
fn alt_twice_and_f10_toggle_activation() {
    let p = GlobalParameters::new();
    let mut s = MenuBarState::new(roots());
    s.bar_event(BarEvent::KeyPressed(Key::F10), false, &nowhere(4), false, &p);
    assert!(s.global().bar_focused);
    s.bar_event(BarEvent::KeyPressed(Key::Alt), false, &nowhere(4), false, &p);
    assert!(!s.global().bar_focused);
    assert_eq!(s.level(0).keyboard_highlight, None);
}

#[test]
fn arrow_down_opens_the_focused_root_for_the_keyboard() {
    let p = GlobalParameters::new();
    let mut s = MenuBarState::new(roots());
    s.bar_event(BarEvent::KeyPressed(Key::Alt), false, &nowhere(4), false, &p);
    s.bar_event(BarEvent::KeyPressed(Key::ArrowRight), false, &nowhere(4), false, &p);
    let out = s.bar_event(BarEvent::KeyPressed(Key::ArrowDown), false, &nowhere(4), false, &p);
    assert!(s.global().open && s.global().keyboard_nav && !s.global().bar_focused);
    assert_eq!(s.level(0).active, Some(1));
    assert_eq!(s.depth(), 2);
    assert_eq!(out.effects.fresh_from, Some(1));
}

#[test]
fn keys_do_nothing_to_an_inactive_bar() {
    let p = GlobalParameters::new();
    let mut s = MenuBarState::new(roots());
    let out = s.bar_event(BarEvent::KeyPressed(Key::ArrowRight), false, &nowhere(4), false, &p);
    assert!(!out.effects.capture_event);
    assert_eq!(s.level(0).keyboard_highlight, None);
}

#[test]
fn mouse_movement_leaves_keyboard_activation() {
    let p = GlobalParameters::new();
    let mut s = MenuBarState::new(roots());
    s.bar_event(BarEvent::KeyPressed(Key::Alt), false, &nowhere(4), false, &p);
    s.bar_event(BarEvent::CursorMoved, false, &nowhere(4), false, &p);
    assert!(!s.global().bar_focused && !s.global().keyboard_nav);
    assert_eq!(s.level(0).keyboard_highlight, None);
}

#[test]
fn requests_from_outside_open_and_close() {
    let mut s = MenuBarState::new(roots());
    s.request_open(1);
    assert_eq!(s.global().pending_open, Some(1));
    let e = s.consume_pending();
    assert!(s.global().open);
    assert_eq!(s.global().pending_open, None);
    assert_eq!(s.level(0).active, Some(1));
    assert_eq!(e.fresh_from, Some(1));
    s.request_close();
    let e = s.consume_pending();
    assert!(!s.global().open);
    assert!(!s.global().pending_close);
    assert_eq!(s.depth(), 1);
    assert!(e.close_menus);
}

#[test]
fn request_for_a_root_without_menu_is_dropped() {
    let mut s = MenuBarState::new(roots());
    s.request_open(2);
    let e = s.consume_pending();
    assert!(!s.global().open);
    assert_eq!(s.global().pending_open, None);
    assert!(!e.invalidate_layout);
    s.request_open(9);
    s.consume_pending();
    assert!(!s.global().open);
}

#[test]
fn close_waits_for_the_button_release() {
    let p = GlobalParameters::new();
    let mut s = MenuBarState::new(roots());
    click_root(&mut s, 0, &p);
    s.global_state.pressed = true;
    let e = s.close();
    assert!(s.global().open);
    assert!(!e.close_menus);
    s.global_state.pressed = false;
    let e = s.close();
    assert!(!s.global().open);
    assert!(e.close_menus && e.request_redraw);
    assert_eq!(s.depth(), 1);
}

#[test]
fn status_follows_the_bar_state() {
    let p = GlobalParameters::new();
    let mut s = MenuBarState::new(roots());
    assert_eq!(s.bar_status(false), Status::Active);
    assert_eq!(s.bar_status(true), Status::Hovered);
    s.bar_event(BarEvent::LeftPressed, true, &hov(4, 0), false, &p);
    assert_eq!(s.bar_status(true), Status::Pressed);
    s.bar_event(BarEvent::LeftReleased, true, &hov(4, 0), false, &p);
    assert_eq!(s.bar_status(true), Status::Selected);
    let mut k = MenuBarState::new(roots());
    k.bar_event(BarEvent::KeyPressed(Key::Alt), false, &nowhere(4), false, &p);
    assert_eq!(k.bar_status(false), Status::Focused);
}

#[test]
fn highlight_marks_the_open_or_focused_root() {
    let p = GlobalParameters::new();
    let hover = GlobalParameters::new().path_highlight(PathHighlight::Hover);
    let mut s = MenuBarState::new(roots());
    assert_eq!(s.bar_highlight(&p), BarHighlight::UnderCursor);
    assert_eq!(s.bar_highlight(&hover), BarHighlight::Nothing);
    click_root(&mut s, 1, &p);
    assert_eq!(s.bar_highlight(&p), BarHighlight::Slot(1));
    assert!(s.root_update_centered(1, &p));
    assert!(!s.root_update_centered(1, &hover));
    assert!(s.root_draw_centered(1));
    assert!(!s.root_draw_centered(0));
    assert_eq!(s.active_slot(0), Some(1));
    s.set_level_slice(0, MenuSlice { start_index: 2, end_index: 3 });
    assert_eq!(s.bar_highlight(&p), BarHighlight::Nothing);
    assert_eq!(s.active_slot(0), None);
    let mut k = MenuBarState::new(roots());
    k.bar_event(BarEvent::KeyPressed(Key::Alt), false, &nowhere(4), false, &p);
    k.bar_event(BarEvent::KeyPressed(Key::ArrowRight), false, &nowhere(4), false, &p);
    assert_eq!(k.bar_highlight(&p), BarHighlight::Slot(1));
    k.set_level_slice(0, MenuSlice { start_index: 2, end_index: 3 });
    assert_eq!(k.bar_highlight(&p), BarHighlight::Slot(0));
}

#[test]
fn rebuild_with_same_entries_keeps_the_open_path() {
    let p = GlobalParameters::new();
    let mut s = MenuBarState::new(roots());
    click_root(&mut s, 0, &p);
    s.diff(roots());
    assert_eq!(s.depth(), 2);
    assert_eq!(s.level(0).active, Some(0));
}

#[test]
fn rebuild_with_fewer_entries_cuts_the_open_path() {
    let p = GlobalParameters::new();
    let mut s = MenuBarState::new(roots());
    click_root(&mut s, 1, &p);
    s.diff(vec![ItemSpec::with_menu(vec![leaf()])]);
    assert_eq!(s.depth(), 1);
    assert_eq!(s.level(0).active, None);
    assert_eq!(s.level(0).keyboard_highlight, None);
    assert!(s.global().open);
}
