use iced_menu_bar::common::Dismiss;
use iced_menu_bar::item::ItemSpec;
use iced_menu_bar::keyboard::EntryRef;
use iced_menu_bar::keys::Key;
use iced_menu_bar::state::{GlobalParameters, MenuBarState};

fn leaf() -> ItemSpec {
    ItemSpec::new()
}

fn roots() -> Vec<ItemSpec> {
    vec![
        ItemSpec::with_menu(vec![
            leaf(),
            leaf(),
            ItemSpec::with_menu(vec![ItemSpec::inert(), leaf(), leaf()]),
            ItemSpec::inert(),
            leaf(),
        ]),
        ItemSpec::with_menu(vec![leaf(), leaf().keep_open(), leaf()]),
        leaf(),
        ItemSpec::with_menu(vec![]),
    ]
}

fn opened(root: usize) -> MenuBarState {
    let mut s = MenuBarState::new(roots());
    s.request_open(root);
    s.consume_pending();
    s
}

#[test]
fn keys_are_ignored_while_closed() {
    let p = GlobalParameters::new();
    let mut s = MenuBarState::new(roots());
    let r = s.handle_key(Key::ArrowDown, &vec![], &p);
    assert!(!r.consumed);
    assert!(!s.global().keyboard_nav);
}

#[test]
fn other_keys_are_not_consumed() {
    let p = GlobalParameters::new();
    let mut s = opened(0);
    let r = s.handle_key(Key::Other, &vec![5], &p);
    assert!(!r.consumed);
    assert!(!s.global().keyboard_nav);
}

#[test]
fn down_and_up_move_the_focus_skipping_separators() {
    let p = GlobalParameters::new();
    let mut s = opened(0);
    let r = s.handle_key(Key::ArrowDown, &vec![5], &p);
    assert!(r.consumed && r.effects.capture_event && r.effects.request_redraw);
    assert!(s.global().keyboard_nav);
    assert_eq!(s.level(1).keyboard_highlight, Some(0));
    s.handle_key(Key::ArrowDown, &vec![5], &p);
    s.handle_key(Key::ArrowDown, &vec![5], &p);
    assert_eq!(s.level(1).keyboard_highlight, Some(2));
    s.handle_key(Key::ArrowDown, &vec![5], &p);
    assert_eq!(s.level(1).keyboard_highlight, Some(4));
    s.handle_key(Key::ArrowDown, &vec![5], &p);
    assert_eq!(s.level(1).keyboard_highlight, Some(0));
    s.handle_key(Key::ArrowUp, &vec![5], &p);
    assert_eq!(s.level(1).keyboard_highlight, Some(4));
}

#[test]
fn right_opens_the_focused_submenu_and_left_closes_it() {
    let p = GlobalParameters::new();
    let mut s = opened(0);
    s.handle_key(Key::ArrowDown, &vec![5], &p);
    s.handle_key(Key::ArrowDown, &vec![5], &p);
    s.handle_key(Key::ArrowDown, &vec![5], &p);
    assert_eq!(s.level(1).keyboard_highlight, Some(2));
    let r = s.handle_key(Key::ArrowRight, &vec![5], &p);
    assert!(r.consumed);
    assert_eq!(r.effects.fresh_from, Some(2));
    assert_eq!(s.depth(), 3);
    assert_eq!(s.level(1).active, Some(2));
    assert_eq!(s.level(2).keyboard_highlight, Some(1));
    let r = s.handle_key(Key::ArrowLeft, &vec![5, 3], &p);
    assert!(r.consumed && r.effects.invalidate_layout);
    assert_eq!(s.depth(), 2);
    assert_eq!(s.level(1).active, None);
    assert_eq!(s.level(1).keyboard_highlight, Some(2));
}

#[test]
fn enter_on_a_submenu_entry_opens_it() {
    let p = GlobalParameters::new();
    let mut s = opened(0);
    for _ in 0..3 {
        s.handle_key(Key::ArrowDown, &vec![5], &p);
    }
    s.handle_key(Key::Enter, &vec![5], &p);
    assert_eq!(s.depth(), 3);
    let r = s.handle_key(Key::Escape, &vec![5, 3], &p);
    assert!(r.consumed);
    assert_eq!(s.depth(), 2);
    assert!(s.global().open);
}

#[test]
fn escape_in_the_top_menu_closes_the_tree() {
    let p = GlobalParameters::new();
    let mut s = opened(0);
    let r = s.handle_key(Key::Escape, &vec![5], &p);
    assert!(r.consumed && r.effects.close_menus);
    assert!(!s.global().open);
    assert_eq!(s.depth(), 1);
}

#[test]
fn activating_a_leaf_clicks_it_and_closes_by_default() {
    let p = GlobalParameters::new();
    let mut s = opened(0);
    s.handle_key(Key::ArrowDown, &vec![5], &p);
    let r = s.handle_key(Key::Space, &vec![5], &p);
    assert!(r.consumed);
    assert_eq!(r.click, Some(EntryRef { level: 1, index: 0 }));
    assert!(!s.global().open);
}

#[test]
fn activating_a_kept_open_leaf_clicks_without_closing() {
    let p = GlobalParameters::new();
    let mut s = opened(1);
    s.handle_key(Key::ArrowDown, &vec![3], &p);
    s.handle_key(Key::ArrowDown, &vec![3], &p);
    let r = s.handle_key(Key::Enter, &vec![3], &p);
    assert_eq!(r.click, Some(EntryRef { level: 1, index: 1 }));
    assert!(s.global().open);
    assert_eq!(s.depth(), 2);
}

#[test]
fn manual_dismiss_keeps_the_tree_open_after_activation() {
    let p = GlobalParameters::new().dismiss(Dismiss::Manual);
    let mut s = opened(0);
    s.handle_key(Key::ArrowDown, &vec![5], &p);
    let r = s.handle_key(Key::Enter, &vec![5], &p);
    assert_eq!(r.click, Some(EntryRef { level: 1, index: 0 }));
    assert!(s.global().open);
}

#[test]
fn activation_without_a_laid_out_entry_does_nothing() {
    let p = GlobalParameters::new();
    let mut s = opened(0);
    s.handle_key(Key::ArrowDown, &vec![5], &p);
    let r = s.handle_key(Key::Enter, &vec![0], &p);
    assert!(r.consumed);
    assert_eq!(r.click, None);
    assert!(s.global().open);
}

#[test]
fn right_in_the_top_menu_switches_to_the_next_root_with_a_menu() {
    let p = GlobalParameters::new();
    let mut s = opened(0);
    s.handle_key(Key::ArrowDown, &vec![5], &p);
    let r = s.handle_key(Key::ArrowRight, &vec![5], &p);
    assert!(r.consumed);
    assert_eq!(s.level(0).active, Some(1));
    assert_eq!(s.depth(), 2);
    assert_eq!(s.level(1).keyboard_highlight, Some(0));
    assert_eq!(r.effects.fresh_from, Some(1));
}

#[test]
fn left_in_the_top_menu_steps_back_wrapping_to_an_empty_menu() {
    let p = GlobalParameters::new();
    let mut s = opened(0);
    let r = s.handle_key(Key::ArrowLeft, &vec![5], &p);
    assert!(r.consumed);
    assert!(s.global().open);
    assert_eq!(s.level(0).active, None);
    assert_eq!(s.depth(), 1);
}

#[test]
fn missing_layout_leaves_the_key_unconsumed() {
    let p = GlobalParameters::new();
    let mut s = opened(0);
    let r = s.handle_key(Key::ArrowDown, &vec![], &p);
    assert!(!r.consumed);
    assert!(s.global().keyboard_nav);
    assert_eq!(s.level(1).keyboard_highlight, None);
}
