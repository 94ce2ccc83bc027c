use iced_menu_bar::common::{search_bound, Direction, MenuSlice};
use iced_menu_bar::error::Error;
use iced_menu_bar::keys::{key_action, Key, KeyAction};
use iced_menu_bar::state::{GlobalState, MenuBarTask};
use iced_menu_bar::style::Status;

#[test]
fn search_bound_finds_last_entry_not_past_the_bound() {
    let exceeds = vec![false, false, true, true];
    assert_eq!(search_bound(0, 3, &exceeds), 1);
    assert_eq!(search_bound(2, 3, &exceeds), 2);
    let none_exceed = vec![false, false, false];
    assert_eq!(search_bound(0, 2, &none_exceed), 2);
    let all_exceed = vec![true, true, true];
    assert_eq!(search_bound(0, 2, &all_exceed), 0);
}

#[test]
fn search_bound_on_single_entry_range_needs_no_list() {
    let empty: Vec<bool> = vec![];
    assert_eq!(search_bound(0, 0, &empty), 0);
}

#[test]
fn slice_from_bounds_covers_the_visible_entries() {
    // entries start at 0, 10, 20, 30, 40; window from 15 to 35
    let lower = vec![false, false, true, true, true];
    let upper = vec![false, false, false, false, true];
    let slice = MenuSlice::from_bounds_rel(&lower, &upper);
    assert_eq!(slice, MenuSlice { start_index: 1, end_index: 3 });
}

#[test]
fn slice_of_empty_list_is_zero() {
    let slice = MenuSlice::from_bounds_rel(&vec![], &vec![]);
    assert_eq!(slice, MenuSlice { start_index: 0, end_index: 0 });
}

#[test]
fn slice_range_is_clamped_to_the_list() {
    assert_eq!(MenuSlice::everything().range(3), (0, 3));
    assert_eq!(MenuSlice { start_index: 2, end_index: 5 }.range(4), (2, 4));
    assert_eq!(MenuSlice { start_index: 5, end_index: 6 }.range(3), (3, 3));
    assert_eq!(MenuSlice { start_index: 1, end_index: 1 }.range(3), (1, 2));
    assert_eq!(MenuSlice::everything().range(0), (0, 0));
}

#[test]
fn direction_flips_and_flips_back() {
    assert_eq!(Direction::Positive.flip(), Direction::Negative);
    assert_eq!(Direction::Negative.flip(), Direction::Positive);
    assert_eq!(Direction::Positive.flip().flip(), Direction::Positive);
}

#[test]
fn task_is_scheduled_replaced_and_cleared() {
    let mut g = GlobalState::default();
    assert_eq!(g.task(), None);
    g.schedule(MenuBarTask::OpenOnClick);
    assert_eq!(g.task(), Some(MenuBarTask::OpenOnClick));
    g.schedule(MenuBarTask::CloseOnClick);
    assert_eq!(g.task(), Some(MenuBarTask::CloseOnClick));
    g.clear_task();
    assert_eq!(g.task(), None);
    assert!(!g.open && !g.pressed && !g.keyboard_nav && !g.bar_focused);
}

#[test]
fn keys_map_to_navigation_commands() {
    assert_eq!(key_action(Key::ArrowDown), Some(KeyAction::Down));
    assert_eq!(key_action(Key::ArrowUp), Some(KeyAction::Up));
    assert_eq!(key_action(Key::ArrowLeft), Some(KeyAction::Left));
    assert_eq!(key_action(Key::ArrowRight), Some(KeyAction::Right));
    assert_eq!(key_action(Key::Enter), Some(KeyAction::Activate));
    assert_eq!(key_action(Key::Space), Some(KeyAction::Activate));
    assert_eq!(key_action(Key::Escape), Some(KeyAction::Escape));
    assert_eq!(key_action(Key::Alt), None);
    assert_eq!(key_action(Key::F10), None);
    assert_eq!(key_action(Key::Other), None);
}

#[test]
fn empty_menu_error_has_its_message() {
    assert_eq!(Error::EmptyMenu.message(), "a menu must contain at least one item");
}

#[test]
fn status_values_are_distinct() {
    assert_ne!(Status::Active, Status::Hovered);
    assert_ne!(Status::Focused, Status::Selected);
    assert_ne!(Status::Pressed, Status::Disabled);
}
