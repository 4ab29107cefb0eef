//! A cursor list in which any number of items can be selected, one by one
//! or by sweeping the cursor over them.

use vstd::prelude::*;
use std::collections::HashSet;
use crate::navigable_list::{Keyed, NavigableList, keys_of, kept_cursor};
use crate::tree_list::ListState;

verus! {

broadcast use vstd::std_specs::hash::group_hash_axioms;

/// What a move of the cursor does to the items it passes.
#[derive(Clone, Copy, Debug, PartialEq, Eq, Structural)]
pub enum SelectionMode {
    /// Nothing.
    Off,
    /// It selects them.
    Select,
    /// It deselects them.
    Deselect,
}

/// The keys at the positions `lo` to `hi`, both included, as far as the list
/// reaches.
pub open spec fn keys_between(keys: Seq<u64>, lo: int, hi: int) -> Set<u64> {
    Set::new(|k: u64| exists|i: int| lo <= i <= hi && 0 <= i < keys.len() && #[trigger] keys[i] == k)
}

/// The keys of the items that a move of the cursor from `from` to `to`
/// passes: those between the two positions, both included, in either
/// direction; from no cursor, those from the first item to `to`; to no
/// cursor, none.
pub open spec fn swept_keys(keys: Seq<u64>, from: Option<usize>, to: Option<usize>) -> Set<u64> {
    match (from, to) {
        (None, Some(t)) => keys_between(keys, 0, t as int),
        (Some(f), Some(t)) => if f <= t {
            keys_between(keys, f as int, t as int)
        } else {
            keys_between(keys, t as int, f as int)
        },
        _ => Set::empty(),
    }
}

/// The selection after the keys `swept` were passed in mode `mode`.
pub open spec fn paint(selected: Set<u64>, mode: SelectionMode, swept: Set<u64>) -> Set<u64> {
    match mode {
        SelectionMode::Off => selected,
        SelectionMode::Select => selected.union(swept),
        SelectionMode::Deselect => selected.difference(swept),
    }
}

/// The items whose keys are selected, in the order of the list.
pub open spec fn selected_of<Item: Keyed>(items: Seq<Item>, selected: Set<u64>) -> Seq<Item>
    decreases items.len(),
{
    if items.len() == 0 {
        Seq::empty()
    } else if selected.contains(items.last().key()) {
        selected_of(items.drop_last(), selected).push(items.last())
    } else {
        selected_of(items.drop_last(), selected)
    }
}

/// A list of keyed items with a cursor and a set of selected keys.
pub struct MultiselectList<Item: Keyed> {
    state: ListState,
    items: Vec<Item>,
    selected_items: HashSet<u64>,
    selection_mode: SelectionMode,
}

impl<Item: Keyed> MultiselectList<Item> {
    /// The keys that are selected.
    pub closed spec fn selected(&self) -> Set<u64> {
        self.selected_items@
    }

    /// The mode in which the cursor moves.
    pub closed spec fn mode(&self) -> SelectionMode {
        self.selection_mode
    }
}

impl<Item: Keyed> NavigableList<Item> for MultiselectList<Item> {
    closed spec fn items(&self) -> Seq<Item> {
        self.items@
    }

    closed spec fn cursor(&self) -> Option<usize> {
        self.state.selected
    }

    /// A move of the cursor paints the items it passes and keeps the mode.
    open spec fn moved(pre: Self, cursor: Option<usize>, post: Self) -> bool {
        &&& post.mode() == pre.mode()
        &&& post.selected() == paint(
            pre.selected(),
            pre.mode(),
            swept_keys(keys_of(pre.items()), pre.cursor(), cursor),
        )
    }

    /// New items leave the selection and the mode as they are.
    open spec fn refilled(pre: Self, items: Seq<Item>, post: Self) -> bool {
        &&& post.mode() == pre.mode()
        &&& post.selected() == pre.selected()
    }

    fn get_items(&self) -> (items: &Vec<Item>) {
        &self.items
    }

    fn set_items(&mut self, items: Vec<Item>) {
        self.items = items;
    }

    fn get_cursor(&self) -> (cursor: Option<usize>) {
        self.state.selected
    }

    /// Moves the cursor to `cursor` and, in mode `Select` or `Deselect`,
    /// selects or deselects every item between the old and the new
    /// position.
    fn set_cursor(&mut self, cursor: Option<usize>) {
        let old_cursor = self.state.selected;
        self.state.selected = cursor;
        let select = match self.selection_mode {
            SelectionMode::Off => {
                return ;
            },
            SelectionMode::Select => true,
            SelectionMode::Deselect => false,
        };
        let (lo, hi) = match (old_cursor, cursor) {
            (None, Some(t)) => (0, t),
            (Some(f), Some(t)) => if f <= t {
                (f, t)
            } else {
                (t, f)
            },
            _ => {
                assert(paint(self.selected(), self.mode(), Set::<u64>::empty()) =~= self.selected());
                return ;
            },
        };
        let ghost keys = keys_of(self.items@);
        let ghost before = self.selected_items@;
        let ghost mode = self.selection_mode;
        let mut index: usize = lo;
        while index <= hi && index < self.items.len()
            invariant
                lo <= index,
                index <= hi + 1,
                keys == keys_of(self.items@),
                self.items@ == old(self).items@,
                self.selection_mode == mode,
                self.state.selected == cursor,
                mode == (if select {
                    SelectionMode::Select
                } else {
                    SelectionMode::Deselect
                }),
                self.selected_items@ == paint(before, mode, keys_between(keys, lo as int, index - 1)),
            decreases self.items.len() - index,
        {
            let key = self.items[index].get_key();
            proof {
                assert(keys[index as int] == key);
            }
            self.set_item_selected(key, select);
            index += 1;
        }
        proof {
            assert(keys_between(keys, lo as int, index - 1) =~= keys_between(
                keys,
                lo as int,
                hi as int,
            ));
        }
    }
}

impl<Item: Keyed> MultiselectList<Item> {
    /// A list without items, cursor or selection, in mode `Off`.
    pub fn new() -> (list: Self)
        ensures
            list.items().len() == 0,
            list.cursor() is None,
            list.selected() == Set::<u64>::empty(),
            list.mode() == SelectionMode::Off,
    {
        MultiselectList {
            state: ListState { selected: None },
            items: Vec::new(),
            selected_items: HashSet::new(),
            selection_mode: SelectionMode::Off,
        }
    }

    /// The state that a list widget draws this list with.
    pub fn get_list_state(&self) -> (state: ListState)
        ensures
            state.selected == self.cursor(),
    {
        self.state
    }

    /// The mode in which the cursor moves.
    pub fn get_selection_mode(&self) -> (mode: SelectionMode)
        ensures
            mode == self.mode(),
    {
        self.selection_mode
    }

    /// Sets the mode in which the cursor moves.
    pub fn set_selection_mode(&mut self, selection_mode: SelectionMode)
        ensures
            final(self).mode() == selection_mode,
            final(self).items() == old(self).items(),
            final(self).cursor() == old(self).cursor(),
            final(self).selected() == old(self).selected(),
    {
        self.selection_mode = selection_mode;
    }

    /// The items, each with whether it is selected.
    pub fn iter_items_with_selected(&self) -> (r: Vec<(&Item, bool)>)
        ensures
            r@.len() == self.items().len(),
            forall|i: int|
                0 <= i < r@.len() ==> {
                    &&& *(#[trigger] r@[i]).0 == self.items()[i]
                    &&& r@[i].1 == self.selected().contains(self.items()[i].key())
                },
    {
        let mut r: Vec<(&Item, bool)> = Vec::new();
        let mut i: usize = 0;
        while i < self.items.len()
            invariant
                i <= self.items.len(),
                r@.len() == i,
                forall|k: int|
                    0 <= k < i ==> {
                        &&& *(#[trigger] r@[k]).0 == self.items@[k]
                        &&& r@[k].1 == self.selected_items@.contains(self.items@[k].key())
                    },
            decreases self.items.len() - i,
        {
            let item = &self.items[i];
            let key = item.get_key();
            r.push((item, self.selected_items.contains(&key)));
            i += 1;
        }
        r
    }

    /// Puts `items` in place of the items of the list. The cursor follows
    /// its item by key, without painting; of the selection, the keys that
    /// still occur among the items stay.
    pub fn replace_items(&mut self, items: Vec<Item>)
        ensures
            final(self).items() == items@,
            final(self).cursor() == kept_cursor(
                keys_of(old(self).items()),
                old(self).cursor(),
                keys_of(items@),
            ),
            final(self).mode() == old(self).mode(),
            final(self).selected() == old(self).selected().intersect(keys_of(items@).to_set()),
    {
        // The mode is off while the cursor is put back, so that putting it
        // back selects and deselects nothing.
        let selection_mode = self.selection_mode;
        self.selection_mode = SelectionMode::Off;
        let ghost before = self.selected_items@;
        NavigableList::replace_items(self, items);
        // Of the selection, keep what still occurs.
        let mut kept: HashSet<u64> = HashSet::new();
        let ghost keys = keys_of(self.items@);
        let mut i: usize = 0;
        while i < self.items.len()
            invariant
                i <= self.items.len(),
                keys == keys_of(self.items@),
                self.selected_items@ == before,
                kept@ == before.intersect(keys_between(keys, 0, i - 1)),
            decreases self.items.len() - i,
        {
            let key = self.items[i].get_key();
            proof {
                assert(keys[i as int] == key);
            }
            if self.selected_items.contains(&key) {
                kept.insert(key);
            }
            i += 1;
        }
        self.selected_items = kept;
        self.selection_mode = selection_mode;
    }

    /// Whether the key is selected.
    pub fn get_item_selected(&self, key: u64) -> (r: bool)
        ensures
            r == self.selected().contains(key),
    {
        self.selected_items.contains(&key)
    }

    /// Selects or deselects the key.
    pub fn set_item_selected(&mut self, key: u64, selected: bool)
        ensures
            final(self).selected() == (if selected {
                old(self).selected().insert(key)
            } else {
                old(self).selected().remove(key)
            }),
            final(self).items() == old(self).items(),
            final(self).cursor() == old(self).cursor(),
            final(self).mode() == old(self).mode(),
    {
        if selected {
            self.selected_items.insert(key);
        } else {
            self.selected_items.remove(&key);
        }
    }

    /// Selects the item under the cursor where it is not selected, and
    /// deselects it where it is. Without an item under the cursor nothing
    /// changes.
    pub fn toggle_cursor_selected(&mut self)
        ensures
            final(self).items() == old(self).items(),
            final(self).cursor() == old(self).cursor(),
            final(self).mode() == old(self).mode(),
            final(self).selected() == match old(self).cursor() {
                Some(index) if index < old(self).items().len() => {
                    let key = old(self).items()[index as int].key();
                    if old(self).selected().contains(key) {
                        old(self).selected().remove(key)
                    } else {
                        old(self).selected().insert(key)
                    }
                },
                _ => old(self).selected(),
            },
    {
        let key = match self.get_cursor_item() {
            Some(item) => Some(item.get_key()),
            None => None,
        };
        if let Some(key) = key {
            let selected = self.get_item_selected(key);
            self.set_item_selected(key, !selected);
        }
    }

    /// Selects every item, or deselects everything.
    pub fn set_all_selected(&mut self, new_selected: bool)
        ensures
            final(self).items() == old(self).items(),
            final(self).cursor() == old(self).cursor(),
            final(self).mode() == old(self).mode(),
            final(self).selected() == (if new_selected {
                keys_of(old(self).items()).to_set()
            } else {
                Set::<u64>::empty()
            }),
    {
        let mut all: HashSet<u64> = HashSet::new();
        if new_selected {
            let ghost keys = keys_of(self.items@);
            let mut i: usize = 0;
            while i < self.items.len()
                invariant
                    i <= self.items.len(),
                    keys == keys_of(self.items@),
                    all@ == keys_between(keys, 0, i - 1),
                decreases self.items.len() - i,
            {
                let key = self.items[i].get_key();
                all.insert(key);
                proof {
                    assert(keys[i as int] == key);
                }
                i += 1;
            }
        }
        self.selected_items = all;
    }

    /// The selected items, in the order of the list.
    pub fn get_selected_items(&self) -> (r: Vec<&Item>)
        ensures
            r@.map_values(|item: &Item| *item) == selected_of(self.items(), self.selected()),
    {
        let mut r: Vec<&Item> = Vec::new();
        let mut i: usize = 0;
        while i < self.items.len()
            invariant
                i <= self.items.len(),
                r@.map_values(|item: &Item| *item) == selected_of(
                    self.items@.take(i as int),
                    self.selected_items@,
                ),
            decreases self.items.len() - i,
        {
            let item = &self.items[i];
            let key = item.get_key();
            proof {
                let t = self.items@.take(i + 1);
                assert(t.drop_last() =~= self.items@.take(i as int));
            }
            if self.selected_items.contains(&key) {
                r.push(item);
            }
            i += 1;
        }
        assert(self.items@.take(self.items.len() as int) =~= self.items@);
        r
    }
}

/// After the cursor was put on `a` in mode `Off`, the mode set to `Select` and the cursor
/// moved to `b`, the selection holds the keys it held before together with
/// those of the items between the two positions, both included; with an
/// empty selection before, exactly those.
pub proof fn lemma_sweep_selects<Item: Keyed>(
    start: MultiselectList<Item>,
    at_a: MultiselectList<Item>,
    selecting: MultiselectList<Item>,
    at_b: MultiselectList<Item>,
    a: Option<usize>,
    b: usize,
)
    requires
        start.mode() == SelectionMode::Off,
        MultiselectList::<Item>::moved(start, a, at_a),
        at_a.cursor() == a,
        at_a.items() == start.items(),
        selecting.mode() == SelectionMode::Select,
        selecting.items() == at_a.items(),
        selecting.cursor() == at_a.cursor(),
        selecting.selected() == at_a.selected(),
        MultiselectList::<Item>::moved(selecting, Some(b), at_b),
    ensures
        at_b.selected() == start.selected().union(
            keys_between(
                keys_of(start.items()),
                match a {
                    Some(a) => if a <= b {
                        a as int
                    } else {
                        b as int
                    },
                    None => 0,
                },
                match a {
                    Some(a) => if a <= b {
                        b as int
                    } else {
                        a as int
                    },
                    None => b as int,
                },
            ),
        ),
{
}

} // verus!
