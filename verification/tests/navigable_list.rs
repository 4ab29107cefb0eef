use mailbox::navigable_list::NavigableList;

struct List {
    items: Vec<u64>,
    cursor: Option<usize>,
}

impl NavigableList<u64> for List {
    fn get_items(&self) -> &Vec<u64> {
        &self.items
    }

    fn set_items(&mut self, items: Vec<u64>) {
        self.items = items;
    }

    fn get_cursor(&self) -> Option<usize> {
        self.cursor
    }

    fn set_cursor(&mut self, new_cursor: Option<usize>) {
        self.cursor = new_cursor;
    }
}

// Create a List containing a certain number of items
fn get_sized_list(size: usize) -> List {
    List {
        items: (0..size).map(|index| index as u64).collect(),
        cursor: None,
    }
}

#[test]
fn test_move_cursor() {
    let mut list = get_sized_list(5);
    list.set_cursor(Some(2));
    assert_eq!(list.cursor, Some(2));

    list.set_cursor(None);
    assert_eq!(list.cursor, None);
}

#[test]
fn test_replace_items_shift() {
    let mut list = get_sized_list(5);
    list.set_cursor(Some(2));
    list.replace_items(vec![0, 1, 3]);
    assert_eq!(list.cursor, Some(2));
}

#[test]
fn test_replace_items_rearrange() {
    let mut list = get_sized_list(5);
    list.set_cursor(Some(2));
    list.replace_items(vec![3, 2, 1, 0]);
    assert_eq!(list.cursor, Some(1));
}

#[test]
fn test_replace_items_remove() {
    let mut list = get_sized_list(5);
    list.set_cursor(Some(2));
    list.replace_items(vec![0, 1]);
    assert_eq!(list.cursor, None);
}

#[test]
fn test_first() {
    let mut list = get_sized_list(5);
    list.set_cursor(Some(2));
    list.first();
    assert_eq!(list.cursor, Some(0));
}

#[test]
fn test_first_empty() {
    let mut list = get_sized_list(0);
    list.first();
    assert_eq!(list.cursor, None);
}

#[test]
fn navigable_list_test_last() {
    let mut list = get_sized_list(5);
    list.set_cursor(Some(2));
    list.last();
    assert_eq!(list.cursor, Some(4));
}

#[test]
fn test_last_empty() {
    let mut list = get_sized_list(0);
    list.last();
    assert_eq!(list.cursor, None);
}

#[test]
fn test_move_cursor_relative() {
    let mut list = get_sized_list(5);
    list.set_cursor(Some(2));

    list.move_cursor_relative(2);
    assert_eq!(list.cursor, Some(4));

    list.move_cursor_relative(-3);
    assert_eq!(list.cursor, Some(1));
}

#[test]
fn test_move_cursor_relative_past_bounds() {
    let mut list = get_sized_list(5);
    list.set_cursor(Some(2));
    list.move_cursor_relative(5);
    assert_eq!(list.cursor, Some(4));

    list.move_cursor_relative(-10);
    assert_eq!(list.cursor, Some(0));
}

#[test]
fn test_move_cursor_relative_no_cursor() {
    let mut list = get_sized_list(5);

    list.move_cursor_relative(3);
    assert_eq!(list.cursor, Some(2));

    list.set_cursor(None);
    list.move_cursor_relative(-3);
    assert_eq!(list.cursor, Some(0));
}

#[test]
fn test_move_cursor_relative_empty() {
    let mut list = get_sized_list(0);
    list.move_cursor_relative(1);
    assert_eq!(list.cursor, None);
    list.move_cursor_relative(-1);
    assert_eq!(list.cursor, None);
}

#[test]
fn test_remove_cursor() {
    let mut list = get_sized_list(5);
    list.set_cursor(Some(2));
    list.remove_cursor();
    assert_eq!(list.cursor, None);
}

#[test]
fn test_get_cursor_item() {
    let mut list = get_sized_list(5);

    list.set_cursor(Some(2));
    assert_eq!(list.get_cursor_item(), Some(&2));

    list.set_cursor(None);
    assert_eq!(list.get_cursor_item(), None);
}

#[test]
fn test_replace_items_duplicate_keys_take_the_last() {
    let mut list = get_sized_list(3);
    list.set_cursor(Some(1));
    list.replace_items(vec![1, 5, 1, 7]);
    assert_eq!(list.cursor, Some(2));
}

#[test]
fn test_replace_items_cursor_past_the_end() {
    let mut list = get_sized_list(3);
    list.set_cursor(Some(10));
    list.replace_items(vec![0, 1, 2]);
    assert_eq!(list.cursor, None);
}
