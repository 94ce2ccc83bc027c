use iced_menu_bar::item::ItemSpec;
use iced_menu_bar::navigation::{first_navigable, next_navigable, next_navigable_root, prev_navigable_root};

fn items(flags: &[bool]) -> Vec<ItemSpec> {
    flags.iter().map(|&n| ItemSpec::new().navigable(n)).collect()
}

#[test]
fn stepping_forward_skips_inert_entries_and_wraps() {
    let list = items(&[true, false, true]);
    assert_eq!(next_navigable(&list, Some(0), true), Some(2));
    assert_eq!(next_navigable(&list, Some(2), true), Some(0));
    assert_eq!(next_navigable(&list, Some(1), true), Some(2));
}

#[test]
fn stepping_backward_skips_inert_entries_and_wraps() {
    let list = items(&[true, false, true]);
    assert_eq!(next_navigable(&list, Some(2), false), Some(0));
    assert_eq!(next_navigable(&list, Some(0), false), Some(2));
}

#[test]
fn first_step_without_focus_lands_on_an_end() {
    let list = items(&[false, true, true, false]);
    assert_eq!(next_navigable(&list, None, true), Some(1));
    assert_eq!(next_navigable(&list, None, false), Some(2));
    assert_eq!(first_navigable(&list), Some(1));
}

#[test]
fn single_navigable_entry_is_found_again() {
    let list = items(&[false, true, false]);
    assert_eq!(next_navigable(&list, Some(1), true), Some(1));
    assert_eq!(next_navigable(&list, Some(1), false), Some(1));
}

#[test]
fn nothing_navigable_gives_none() {
    let list = items(&[false, false]);
    assert_eq!(next_navigable(&list, Some(0), true), None);
    assert_eq!(first_navigable(&list), None);
    assert_eq!(next_navigable(&vec![], None, true), None);
}

#[test]
fn focus_outside_the_list_wraps_by_remainder() {
    let list = items(&[true, true, true]);
    assert_eq!(next_navigable(&list, Some(7), true), Some(2));
    assert_eq!(next_navigable(&list, Some(7), false), Some(0));
}

#[test]
fn roots_step_left_and_right_with_wrapping() {
    let roots = items(&[true, false, true, true]);
    assert_eq!(next_navigable_root(&roots, 0), Some(2));
    assert_eq!(next_navigable_root(&roots, 3), Some(0));
    assert_eq!(prev_navigable_root(&roots, 0), Some(3));
    assert_eq!(prev_navigable_root(&roots, 2), Some(0));
    assert_eq!(prev_navigable_root(&vec![], 0), None);
}

#[test]
fn down_then_up_returns_to_the_entry() {
    let list = items(&[true, false, false, true, true]);
    for h in [0usize, 3, 4] {
        let g = next_navigable(&list, Some(h), true).unwrap();
        assert_eq!(next_navigable(&list, Some(g), false), Some(h));
    }
}
