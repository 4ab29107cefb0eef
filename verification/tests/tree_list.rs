use mailbox::navigable_list::{Keyed, NavigableList};
use mailbox::tree_list::{Depth, TreeList};

struct Item {
    id: u64,
    depth: usize,
}

impl Depth for Item {
    fn get_depth(&self) -> usize {
        self.depth
    }
}

impl Keyed for Item {
    fn get_key(&self) -> u64 {
        self.id
    }
}

impl Item {
    fn new(id: u64, depth: usize) -> Self {
        Self { id, depth }
    }
}

fn get_tree() -> TreeList<Item> {
    let mut tree = TreeList::new();
    tree.replace_items(vec![
        Item::new(0, 0),
        Item::new(1, 0),
        Item::new(2, 1),
        Item::new(3, 2),
        Item::new(4, 1),
        Item::new(5, 2),
        Item::new(6, 2),
        Item::new(7, 0),
        Item::new(8, 1),
    ]);
    tree
}

#[test]
fn test_next_sibling() {
    let mut tree = get_tree();
    tree.set_cursor(Some(2));

    tree.next_sibling();
    assert_eq!(tree.get_cursor(), Some(4));

    tree.next_sibling();
    assert_eq!(tree.get_cursor(), Some(7));
}

#[test]
fn test_next_sibling_no_cursor() {
    let mut tree = get_tree();
    tree.next_sibling();
    assert_eq!(tree.get_cursor(), Some(0));
}

#[test]
fn test_next_sibling_end() {
    let mut tree = get_tree();
    tree.set_cursor(Some(7));
    tree.next_sibling();
    assert_eq!(tree.get_cursor(), Some(7));
}

#[test]
fn test_previous_sibling() {
    let mut tree = get_tree();
    tree.set_cursor(Some(5));

    tree.previous_sibling();
    assert_eq!(tree.get_cursor(), Some(4));

    tree.previous_sibling();
    assert_eq!(tree.get_cursor(), Some(2));

    tree.previous_sibling();
    assert_eq!(tree.get_cursor(), Some(1));

    tree.previous_sibling();
    assert_eq!(tree.get_cursor(), Some(0));
}

#[test]
fn test_previous_sibling_no_cursor() {
    let mut tree = get_tree();
    tree.previous_sibling();
    assert_eq!(tree.get_cursor(), Some(0));
}

#[test]
fn test_previous_sibling_beginning() {
    let mut tree = get_tree();
    tree.set_cursor(Some(0));
    tree.previous_sibling();
    assert_eq!(tree.get_cursor(), Some(0));
}

#[test]
fn test_parent() {
    let mut tree = get_tree();
    tree.set_cursor(Some(6));
    tree.parent();
    assert_eq!(tree.get_cursor(), Some(4));

    tree.parent();
    assert_eq!(tree.get_cursor(), Some(1));

    // A root has no parent
    tree.parent();
    assert_eq!(tree.get_cursor(), Some(1));
}

#[test]
fn test_parent_no_cursor() {
    let mut tree = get_tree();
    tree.parent();
    assert_eq!(tree.get_cursor(), None);
}

#[test]
fn test_next_sibling_cursor_past_the_end() {
    let mut tree = get_tree();
    tree.set_cursor(Some(20));
    tree.next_sibling();
    assert_eq!(tree.get_cursor(), Some(8));
}

#[test]
fn test_list_state_follows_the_cursor() {
    let mut tree = get_tree();
    assert_eq!(tree.get_list_state().selected, None);
    tree.set_cursor(Some(3));
    assert_eq!(tree.get_list_state().selected, Some(3));
}
