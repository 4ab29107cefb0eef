use mailbox::multiselect_list::{MultiselectList, SelectionMode};
use mailbox::navigable_list::{Keyed, NavigableList};

type Item = u64;

// Create a MultiselectList containing a certain number of unselected items
fn get_sized_list(size: usize) -> MultiselectList<Item> {
    let mut list = MultiselectList::<Item>::new();
    list.replace_items((0..size).map(|index| index as Item).collect());
    list
}

// Start with a list with no items selected, then move the cursor and
// return for every item whether it is selected
fn set_cursor_helper(
    mut list: MultiselectList<Item>,
    start: Option<usize>,
    end: Option<usize>,
    selection_mode: SelectionMode,
) -> Vec<bool> {
    list.set_cursor(start);
    list.set_selection_mode(selection_mode);
    list.set_cursor(end);
    list.get_items()
        .iter()
        .map(|item| list.get_item_selected(item.get_key()))
        .collect()
}

#[test]
fn test_set_cursor_select() {
    assert_eq!(
        set_cursor_helper(get_sized_list(5), Some(0), Some(1), SelectionMode::Select),
        vec![true, true, false, false, false]
    );

    assert_eq!(
        set_cursor_helper(get_sized_list(5), Some(1), Some(3), SelectionMode::Select),
        vec![false, true, true, true, false]
    );

    assert_eq!(
        set_cursor_helper(get_sized_list(5), Some(2), Some(0), SelectionMode::Select),
        vec![true, true, true, false, false]
    );

    assert_eq!(
        set_cursor_helper(get_sized_list(5), Some(2), Some(2), SelectionMode::Select),
        vec![false, false, true, false, false]
    );

    assert_eq!(
        set_cursor_helper(get_sized_list(5), None, Some(2), SelectionMode::Select),
        vec![true, true, true, false, false]
    );

    assert_eq!(
        set_cursor_helper(get_sized_list(5), Some(2), None, SelectionMode::Select),
        vec![false, false, false, false, false]
    );
}

#[test]
fn test_set_cursor_deselect() {
    let mut list = get_sized_list(5);
    list.set_all_selected(true);
    assert_eq!(
        set_cursor_helper(list, Some(1), Some(3), SelectionMode::Deselect),
        vec![true, false, false, false, true]
    );
}

#[test]
fn test_set_cursor_no_select() {
    let list = get_sized_list(5);
    assert_eq!(
        set_cursor_helper(list, Some(1), Some(3), SelectionMode::Off),
        vec![false, false, false, false, false]
    );

    let mut list = get_sized_list(5);
    list.set_all_selected(true);
    assert_eq!(
        set_cursor_helper(list, Some(1), Some(3), SelectionMode::Off),
        vec![true, true, true, true, true]
    );
}

#[test]
fn test_replace_items_selected() {
    let mut list = get_sized_list(5);
    list.set_item_selected(list.get_items().get(1).unwrap().get_key(), true);
    list.set_item_selected(list.get_items().get(2).unwrap().get_key(), true);
    list.replace_items(vec![0, 1, 3]);
    assert_eq!(
        list.get_items()
            .iter()
            .map(|item| list.get_item_selected(item.get_key()))
            .collect::<Vec<_>>(),
        vec![false, true, false]
    );
}

#[test]
fn test_replace_items_selection() {
    let mut list = get_sized_list(5);
    list.set_cursor(Some(1));
    list.set_selection_mode(SelectionMode::Select);
    list.set_cursor(Some(3));
    list.replace_items(vec![0, 4]);
    assert_eq!(list.get_selected_items().len(), 0);
}

#[test]
fn test_toggle_cursor_selected() {
    let mut list = get_sized_list(5);
    list.set_cursor(Some(2));

    list.toggle_cursor_selected();
    assert!(list.get_item_selected(list.get_items().get(2).unwrap().get_key()));

    list.toggle_cursor_selected();
    assert!(!list.get_item_selected(list.get_items().get(2).unwrap().get_key()));
}

#[test]
fn test_set_all_selected() {
    let mut list = get_sized_list(2);

    list.set_all_selected(true);
    assert_eq!(list.get_selected_items().len(), 2);

    list.set_all_selected(false);
    assert_eq!(list.get_selected_items().len(), 0);
}

#[test]
fn get_selected_items() {
    let mut list = get_sized_list(5);

    assert_eq!(
        list.get_selected_items().into_iter().copied().collect::<Vec<_>>(),
        Vec::<Item>::new()
    );

    list.set_cursor(Some(2));
    list.toggle_cursor_selected();
    assert_eq!(
        list.get_selected_items().into_iter().copied().collect::<Vec<_>>(),
        vec![2]
    );

    list.set_all_selected(true);
    assert_eq!(
        list.get_selected_items().into_iter().copied().collect::<Vec<_>>(),
        vec![0, 1, 2, 3, 4]
    );
}

#[test]
fn test_replace_items_keeps_mode_and_does_not_paint() {
    let mut list = get_sized_list(5);
    list.set_cursor(Some(4));
    list.set_selection_mode(SelectionMode::Select);
    // The cursor goes from 4 to 0 as the item 4 is the first item now
    list.replace_items(vec![4, 3, 2]);
    assert_eq!(list.get_cursor(), Some(0));
    assert_eq!(list.get_selection_mode(), SelectionMode::Select);
    assert_eq!(list.get_selected_items().len(), 0);
}

#[test]
fn test_sweep_past_the_end_of_the_list() {
    let mut list = get_sized_list(3);
    list.set_cursor(Some(1));
    list.set_selection_mode(SelectionMode::Select);
    list.set_cursor(Some(100));
    assert_eq!(
        list.iter_items_with_selected()
            .into_iter()
            .map(|(item, selected)| (*item, selected))
            .collect::<Vec<_>>(),
        vec![(0, false), (1, true), (2, true)]
    );
    assert_eq!(list.get_list_state().selected, Some(100));
}

#[test]
fn test_moving_while_selecting_paints() {
    let mut list = get_sized_list(6);
    list.set_selection_mode(SelectionMode::Select);
    list.move_cursor_relative(3);
    list.previous();
    list.set_selection_mode(SelectionMode::Deselect);
    list.first();
    assert_eq!(
        list.get_selected_items().into_iter().copied().collect::<Vec<_>>(),
        vec![2]
    );
}
