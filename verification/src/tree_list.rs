//! A cursor list whose items form a tree, written out depth first: every
//! item carries its depth, and the items below it follow it directly.

use vstd::prelude::*;
use crate::navigable_list::{Keyed, NavigableList, relative_cursor};

verus! {

/// An item that knows how deep it lies in a tree; roots have depth 0.
pub trait Depth {
    /// The depth of the item.
    open spec fn depth(&self) -> usize {
        arbitrary()
    }

    /// The depth of the item.
    fn get_depth(&self) -> (d: usize)
        ensures
            d == self.depth(),
    ;
}

/// What a list widget needs to know of a list to draw it: which item is
/// selected.
#[derive(Clone, Copy, Debug, PartialEq, Eq)]
pub struct ListState {
    pub selected: Option<usize>,
}

/// The depths of the items of a list, in order.
pub open spec fn depths_of<Item: Depth>(items: Seq<Item>) -> Seq<usize> {
    items.map_values(|item: Item| item.depth())
}

/// The first position at or after `from` whose depth is at most `depth`, or
/// -1.
pub open spec fn first_at_most(depths: Seq<usize>, from: int, depth: usize) -> int
    decreases depths.len() - from,
{
    if from < 0 || from >= depths.len() {
        -1
    } else if depths[from] <= depth {
        from
    } else {
        first_at_most(depths, from + 1, depth)
    }
}

/// The last position before `before` whose depth is at most `depth`, or -1.
pub open spec fn last_at_most(depths: Seq<usize>, before: int, depth: usize) -> int
    decreases before,
{
    if before <= 0 || before > depths.len() {
        -1
    } else if depths[before - 1] <= depth {
        before - 1
    } else {
        last_at_most(depths, before - 1, depth)
    }
}

/// What `first_at_most` finds is the nearest such position, and it finds
/// one if there is one.
pub proof fn lemma_first_at_most(depths: Seq<usize>, from: int, depth: usize)
    requires
        0 <= from,
    ensures
        ({
            let j = first_at_most(depths, from, depth);
            &&& j == -1 || (from <= j < depths.len() && depths[j] <= depth)
            &&& forall|i: int| from <= i < depths.len() && (j < 0 || i < j) ==> depths[i] > depth
        }),
    decreases depths.len() - from,
{
    if from < depths.len() && depths[from] > depth {
        lemma_first_at_most(depths, from + 1, depth);
    }
}

/// What `last_at_most` finds is the nearest such position, and it finds one
/// if there is one.
pub proof fn lemma_last_at_most(depths: Seq<usize>, before: int, depth: usize)
    requires
        before <= depths.len(),
    ensures
        ({
            let j = last_at_most(depths, before, depth);
            &&& j == -1 || (0 <= j < before && depths[j] <= depth)
            &&& forall|i: int| j < i < before && 0 <= i ==> depths[i] > depth
        }),
    decreases before,
{
    if before > 0 && depths[before - 1] > depth {
        lemma_last_at_most(depths, before - 1, depth);
    }
}

/// Where `next_sibling` puts the cursor: on the next item that is not
/// deeper than the item under the cursor, if there is one; a cursor that
/// stands on no item moves as `next` moves it.
pub open spec fn next_sibling_cursor(depths: Seq<usize>, cursor: Option<usize>) -> Option<usize> {
    match cursor {
        Some(index) if index < depths.len() => {
            let j = first_at_most(depths, index + 1, depths[index as int]);
            if j >= 0 {
                Some(j as usize)
            } else {
                cursor
            }
        },
        _ => relative_cursor(depths.len(), cursor, 1),
    }
}

/// Where `previous_sibling` puts the cursor: on the nearest item before the
/// cursor that is not deeper than the item under it, if there is one; a
/// cursor that stands on no item moves as `previous` moves it.
pub open spec fn previous_sibling_cursor(depths: Seq<usize>, cursor: Option<usize>) -> Option<
    usize,
> {
    match cursor {
        Some(index) if index < depths.len() => {
            let j = last_at_most(depths, index as int, depths[index as int]);
            if j >= 0 {
                Some(j as usize)
            } else {
                cursor
            }
        },
        _ => relative_cursor(depths.len(), cursor, -1),
    }
}

/// Where `parent` puts the cursor: on the nearest item before the cursor
/// that is less deep than the item under it, if there is one; else the
/// cursor stays.
pub open spec fn parent_cursor(depths: Seq<usize>, cursor: Option<usize>) -> Option<usize> {
    match cursor {
        Some(index) if index < depths.len() && depths[index as int] > 0 => {
            let j = last_at_most(depths, index as int, (depths[index as int] - 1) as usize);
            if j >= 0 {
                Some(j as usize)
            } else {
                cursor
            }
        },
        _ => cursor,
    }
}

/// A list of tree items with a cursor.
pub struct TreeList<Item: Depth> {
    state: ListState,
    items: Vec<Item>,
}

impl<Item: Depth + Keyed> NavigableList<Item> for TreeList<Item> {
    closed spec fn items(&self) -> Seq<Item> {
        self.items@
    }

    closed spec fn cursor(&self) -> Option<usize> {
        self.state.selected
    }

    fn get_items(&self) -> (items: &Vec<Item>) {
        &self.items
    }

    fn set_items(&mut self, items: Vec<Item>) {
        self.items = items;
    }

    fn get_cursor(&self) -> (cursor: Option<usize>) {
        self.state.selected
    }

    fn set_cursor(&mut self, cursor: Option<usize>) {
        self.state.selected = cursor;
    }
}

impl<Item: Depth + Keyed> TreeList<Item> {
    /// A list without items and without a cursor.
    pub fn new() -> (list: Self)
        ensures
            list.items().len() == 0,
            list.cursor() is None,
    {
        TreeList { state: ListState { selected: None }, items: Vec::new() }
    }

    /// The state that a list widget draws this list with.
    pub fn get_list_state(&self) -> (state: ListState)
        ensures
            state.selected == self.cursor(),
    {
        self.state
    }

    /// The position of the first item at or after `from` that is at most
    /// `depth` deep.
    fn find_forward(&self, from: usize, depth: usize) -> (r: Option<usize>)
        ensures
            match r {
                Some(j) => j == first_at_most(depths_of(self.items()), from as int, depth),
                None => first_at_most(depths_of(self.items()), from as int, depth) == -1,
            },
    {
        let ghost depths = depths_of(self.items());
        let mut j: usize = from;
        while j < self.items.len()
            invariant
                from <= j,
                depths == depths_of(self.items@),
                first_at_most(depths, from as int, depth) == first_at_most(depths, j as int, depth),
            decreases self.items.len() - j,
        {
            if self.items[j].get_depth() <= depth {
                return Some(j);
            }
            j += 1;
        }
        None
    }

    /// The position of the last item before `before` that is at most
    /// `depth` deep.
    fn find_backward(&self, before: usize, depth: usize) -> (r: Option<usize>)
        requires
            before <= self.items().len(),
        ensures
            match r {
                Some(j) => j == last_at_most(depths_of(self.items()), before as int, depth),
                None => last_at_most(depths_of(self.items()), before as int, depth) == -1,
            },
    {
        let ghost depths = depths_of(self.items());
        let mut j: usize = before;
        while j > 0
            invariant
                j <= before <= self.items@.len(),
                depths == depths_of(self.items@),
                last_at_most(depths, before as int, depth) == last_at_most(depths, j as int, depth),
            decreases j,
        {
            if self.items[j - 1].get_depth() <= depth {
                return Some(j - 1);
            }
            j -= 1;
        }
        None
    }

    /// Moves the cursor to the next sibling or ancestor in the tree, over
    /// what lies below the item under the cursor.
    pub fn next_sibling(&mut self)
        ensures
            final(self).items() == old(self).items(),
            final(self).cursor() == next_sibling_cursor(
                depths_of(old(self).items()),
                old(self).cursor(),
            ),
            match old(self).cursor() {
                Some(from) if from < old(self).items().len() => {
                    let depths = depths_of(old(self).items());
                    let to = final(self).cursor()->Some_0;
                    &&& final(self).cursor() is Some
                    &&& from <= to < depths.len()
                    &&& forall|i: int|
                        from < i < depths.len() && (to == from || i < to) ==> depths[i]
                            > depths[from as int]
                    &&& to > from ==> depths[to as int] <= depths[from as int]
                },
                _ => true,
            },
    {
        proof {
            if let Some(from) = self.cursor() {
                if from < self.items().len() {
                    let depths = depths_of(self.items());
                    lemma_first_at_most(depths, from + 1, depths[from as int]);
                }
            }
        }
        let depth = match self.get_cursor_item() {
            Some(item) => Some(item.get_depth()),
            None => None,
        };
        match (depth, self.state.selected) {
            (Some(depth), Some(index)) => {
                let count = self.items.len();
                assert(index < count);
                assert(depths_of(self.items())[index as int] == depth);
                let found = self.find_forward(index + 1, depth);
                if found.is_some() {
                    self.set_cursor(found);
                }
            },
            _ => {
                self.next();
            },
        }
    }

    /// Moves the cursor to the previous sibling or ancestor in the tree,
    /// over what lies below that item.
    pub fn previous_sibling(&mut self)
        ensures
            final(self).items() == old(self).items(),
            final(self).cursor() == previous_sibling_cursor(
                depths_of(old(self).items()),
                old(self).cursor(),
            ),
            match old(self).cursor() {
                Some(from) if from < old(self).items().len() => {
                    let depths = depths_of(old(self).items());
                    let to = final(self).cursor()->Some_0;
                    &&& final(self).cursor() is Some
                    &&& to <= from
                    &&& forall|i: int|
                        0 <= i < from && (to == from || to < i) ==> depths[i]
                            > depths[from as int]
                    &&& to < from ==> depths[to as int] <= depths[from as int]
                },
                _ => true,
            },
    {
        proof {
            if let Some(from) = self.cursor() {
                if from < self.items().len() {
                    let depths = depths_of(self.items());
                    lemma_last_at_most(depths, from as int, depths[from as int]);
                }
            }
        }
        let depth = match self.get_cursor_item() {
            Some(item) => Some(item.get_depth()),
            None => None,
        };
        match (depth, self.state.selected) {
            (Some(depth), Some(index)) => {
                let found = self.find_backward(index, depth);
                if found.is_some() {
                    self.set_cursor(found);
                }
            },
            _ => {
                self.previous();
            },
        }
    }

    /// Moves the cursor to the parent of the item under it, where it has
    /// one.
    pub fn parent(&mut self)
        ensures
            final(self).items() == old(self).items(),
            final(self).cursor() == parent_cursor(depths_of(old(self).items()), old(self).cursor()),
    {
        let depth = match self.get_cursor_item() {
            Some(item) => Some(item.get_depth()),
            None => None,
        };
        match (depth, self.state.selected) {
            (Some(depth), Some(index)) => {
                if depth > 0 {
                    let found = self.find_backward(index, depth - 1);
                    if found.is_some() {
                        self.set_cursor(found);
                    }
                }
            },
            _ => {},
        }
    }
}

} // verus!
