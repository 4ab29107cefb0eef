//! Lists with a cursor: the shared navigation of the panes of the
//! interactive program.

use vstd::prelude::*;
use std::collections::HashMap;

verus! {

broadcast use vstd::std_specs::hash::group_hash_axioms;

/// An item that can be told apart from the others of its list by a key.
pub trait Keyed {
    /// The key of the item.
    open spec fn key(&self) -> u64 {
        arbitrary()
    }

    /// The key of the item.
    fn get_key(&self) -> (k: u64)
        ensures
            k == self.key(),
    ;
}

impl Keyed for u64 {
    open spec fn key(&self) -> u64 {
        *self
    }

    fn get_key(&self) -> (k: u64) {
        *self
    }
}

/// The keys of the items of a list, in order.
pub open spec fn keys_of<Item: Keyed>(items: Seq<Item>) -> Seq<u64> {
    items.map_values(|item: Item| item.key())
}

/// Where a cursor stands after a move by `change` places in a list of `len`
/// items: an absent cursor counts as standing just before the first item,
/// the result is held inside the list, and an empty list has no cursor.
pub open spec fn relative_cursor(len: nat, cursor: Option<usize>, change: int) -> Option<usize> {
    if len == 0 {
        None
    } else {
        let from = match cursor {
            Some(index) => index as int,
            None => -1,
        };
        let to = from + change;
        if to < 0 {
            Some(0usize)
        } else if to > len - 1 {
            Some((len - 1) as usize)
        } else {
            Some(to as usize)
        }
    }
}

/// The last position at which `keys` holds `key`, or -1.
pub open spec fn last_index_of(keys: Seq<u64>, key: u64) -> int
    decreases keys.len(),
{
    if keys.len() == 0 {
        -1
    } else if keys.last() == key {
        keys.len() - 1
    } else {
        last_index_of(keys.drop_last(), key)
    }
}

pub proof fn lemma_last_index_of(keys: Seq<u64>, key: u64)
    ensures
        -1 <= last_index_of(keys, key) < keys.len(),
        last_index_of(keys, key) >= 0 <==> keys.contains(key),
        last_index_of(keys, key) >= 0 ==> keys[last_index_of(keys, key)] == key,
        forall|i: int| last_index_of(keys, key) < i < keys.len() ==> keys[i] != key,
    decreases keys.len(),
{
    if keys.len() > 0 {
        if keys.last() == key {
        } else {
            let rest = keys.drop_last();
            lemma_last_index_of(rest, key);
            assert forall|i: int| last_index_of(keys, key) < i < keys.len() implies keys[i]
                != key by {
                if i < rest.len() {
                    assert(rest[i] == keys[i]);
                }
            }
        }
    }
}

/// The first position at or after `from` whose old key occurs among the new
/// keys, or -1.
pub open spec fn first_kept(old_keys: Seq<u64>, from: int, new_keys: Seq<u64>) -> int
    decreases old_keys.len() - from,
{
    if from < 0 || from >= old_keys.len() {
        -1
    } else if new_keys.contains(old_keys[from]) {
        from
    } else {
        first_kept(old_keys, from + 1, new_keys)
    }
}

/// Where the cursor stands after the items were replaced: the old items are
/// scanned from the old cursor on for the first whose key occurs among the
/// new items, and the cursor goes to the last new item with that key; where
/// there was no cursor, or no such item, there is none.
pub open spec fn kept_cursor(old_keys: Seq<u64>, cursor: Option<usize>, new_keys: Seq<u64>) -> Option<
    usize,
> {
    match cursor {
        None => None,
        Some(index) => {
            let kept = first_kept(old_keys, index as int, new_keys);
            if kept < 0 {
                None
            } else {
                Some(last_index_of(new_keys, old_keys[kept]) as usize)
            }
        },
    }
}

pub proof fn lemma_first_kept(old_keys: Seq<u64>, from: int, new_keys: Seq<u64>)
    requires
        0 <= from,
    ensures
        first_kept(old_keys, from, new_keys) == -1 || from <= first_kept(old_keys, from, new_keys)
            < old_keys.len(),
        first_kept(old_keys, from, new_keys) >= 0 ==> new_keys.contains(
            old_keys[first_kept(old_keys, from, new_keys)],
        ),
        forall|i: int|
            from <= i < old_keys.len() && (first_kept(old_keys, from, new_keys) < 0 || i
                < first_kept(old_keys, from, new_keys)) ==> !new_keys.contains(old_keys[i]),
    decreases old_keys.len() - from,
{
    if from < old_keys.len() && !new_keys.contains(old_keys[from]) {
        lemma_first_kept(old_keys, from + 1, new_keys);
    }
}

/// Where the key under the old cursor occurs among the new items, the new
/// cursor stands on an item with that key; where no key from the old cursor
/// on occurs among them, there is no cursor.
pub proof fn lemma_kept_cursor_key(old_keys: Seq<u64>, cursor: usize, new_keys: Seq<u64>)
    requires
        cursor < old_keys.len(),
        new_keys.len() <= usize::MAX,
    ensures
        new_keys.contains(old_keys[cursor as int]) ==> {
            &&& kept_cursor(old_keys, Some(cursor), new_keys) is Some
            &&& kept_cursor(old_keys, Some(cursor), new_keys)->Some_0 < new_keys.len()
            &&& new_keys[kept_cursor(old_keys, Some(cursor), new_keys)->Some_0 as int]
                == old_keys[cursor as int]
        },
        (forall|i: int| cursor <= i < old_keys.len() ==> !new_keys.contains(old_keys[i]))
            ==> kept_cursor(old_keys, Some(cursor), new_keys) is None,
{
    lemma_first_kept(old_keys, cursor as int, new_keys);
    if new_keys.contains(old_keys[cursor as int]) {
        lemma_last_index_of(new_keys, old_keys[cursor as int]);
    }
}

/// A list of keyed items with an optional cursor.
///
/// A type that implements this trait says how it holds its items and its
/// cursor, and what else a move of the cursor (`moved`) or new items
/// (`refilled`) do to it. Navigation is provided on top of that.
pub trait NavigableList<Item: Keyed>: Sized {
    /// The items of the list.
    open spec fn items(&self) -> Seq<Item> {
        arbitrary()
    }

    /// The position of the cursor, if there is one.
    open spec fn cursor(&self) -> Option<usize> {
        arbitrary()
    }

    /// How the list after `set_cursor(cursor)` relates to the list before,
    /// beyond the items and the cursor. Nothing, unless a list says so.
    open spec fn moved(pre: Self, cursor: Option<usize>, post: Self) -> bool {
        true
    }

    /// How the list after `set_items(items)` relates to the list before,
    /// beyond the items and the cursor. Nothing, unless a list says so.
    open spec fn refilled(pre: Self, items: Seq<Item>, post: Self) -> bool {
        true
    }

    fn get_items(&self) -> (items: &Vec<Item>)
        ensures
            items@ == self.items(),
    ;

    /// Puts `items` in place of the items of the list; the cursor stays.
    fn set_items(&mut self, items: Vec<Item>)
        ensures
            final(self).items() == items@,
            final(self).cursor() == old(self).cursor(),
            Self::refilled(*old(self), items@, *final(self)),
    ;

    fn get_cursor(&self) -> (cursor: Option<usize>)
        ensures
            cursor == self.cursor(),
    ;

    /// Moves the cursor to `cursor`; the items stay.
    fn set_cursor(&mut self, cursor: Option<usize>)
        ensures
            final(self).cursor() == cursor,
            final(self).items() == old(self).items(),
            Self::moved(*old(self), cursor, *final(self)),
    ;

    /// Moves the cursor to the first item; an empty list has no cursor.
    fn first(&mut self)
        ensures
            final(self).cursor() == (if old(self).items().len() == 0 {
                None
            } else {
                Some(0usize)
            }),
            final(self).items() == old(self).items(),
            Self::moved(*old(self), final(self).cursor(), *final(self)),
    {
        let cursor = if self.get_items().len() == 0 {
            None
        } else {
            Some(0)
        };
        self.set_cursor(cursor);
    }

    /// Moves the cursor to the last item; an empty list has no cursor.
    fn last(&mut self)
        ensures
            final(self).cursor() == (if old(self).items().len() == 0 {
                None
            } else {
                Some((old(self).items().len() - 1) as usize)
            }),
            final(self).items() == old(self).items(),
            Self::moved(*old(self), final(self).cursor(), *final(self)),
    {
        let count = self.get_items().len();
        let cursor = if count == 0 {
            None
        } else {
            Some(count - 1)
        };
        self.set_cursor(cursor);
    }

    /// Moves the cursor forward by `change` items, backward where `change`
    /// is negative, and holds it inside the list.
    fn move_cursor_relative(&mut self, change: i64)
        ensures
            final(self).cursor() == relative_cursor(
                old(self).items().len(),
                old(self).cursor(),
                change as int,
            ),
            final(self).items() == old(self).items(),
            Self::moved(*old(self), final(self).cursor(), *final(self)),
    {
        let count = self.get_items().len();
        let cursor = if count == 0 {
            None
        } else {
            let from: i128 = match self.get_cursor() {
                Some(index) => index as i128,
                None => -1,
            };
            let to: i128 = from + change as i128;
            if to < 0 {
                Some(0)
            } else if to > (count - 1) as i128 {
                Some(count - 1)
            } else {
                Some(to as usize)
            }
        };
        self.set_cursor(cursor);
    }

    /// Moves the cursor to the next item.
    fn next(&mut self)
        ensures
            final(self).cursor() == relative_cursor(old(self).items().len(), old(self).cursor(), 1),
            final(self).items() == old(self).items(),
            Self::moved(*old(self), final(self).cursor(), *final(self)),
    {
        self.move_cursor_relative(1);
    }

    /// Moves the cursor to the previous item.
    fn previous(&mut self)
        ensures
            final(self).cursor() == relative_cursor(old(self).items().len(), old(self).cursor(), -1),
            final(self).items() == old(self).items(),
            Self::moved(*old(self), final(self).cursor(), *final(self)),
    {
        self.move_cursor_relative(-1);
    }

    /// Takes the cursor off the list.
    fn remove_cursor(&mut self)
        ensures
            final(self).cursor() is None,
            final(self).items() == old(self).items(),
            Self::moved(*old(self), None, *final(self)),
    {
        self.set_cursor(None);
    }

    /// The item under the cursor, where the cursor stands on one.
    fn get_cursor_item(&self) -> (item: Option<&Item>)
        ensures
            match self.cursor() {
                Some(index) if index < self.items().len() => item == Some(
                    &self.items()[index as int],
                ),
                _ => item is None,
            },
    {
        match self.get_cursor() {
            Some(index) => {
                let items = self.get_items();
                if index < items.len() {
                    Some(&items[index])
                } else {
                    None
                }
            },
            None => None,
        }
    }

    /// Puts `items` in place of the items of the list and keeps the cursor
    /// on the item it stood on, by key, as `kept_cursor` says.
    fn replace_items(&mut self, items: Vec<Item>)
        ensures
            final(self).items() == items@,
            final(self).cursor() == kept_cursor(
                keys_of(old(self).items()),
                old(self).cursor(),
                keys_of(items@),
            ),
            exists|mid: Self|
                {
                    &&& Self::refilled(*old(self), items@, mid)
                    &&& #[trigger] Self::moved(mid, final(self).cursor(), *final(self))
                },
    {
        let ghost old_keys = keys_of(self.items());
        let ghost new_keys = keys_of(items@);
        // The keys of the old items from the cursor on.
        let mut candidates: Vec<u64> = Vec::new();
        let old_items = self.get_items();
        let from: usize = match self.get_cursor() {
            Some(index) => if index < old_items.len() {
                index
            } else {
                old_items.len()
            },
            None => old_items.len(),
        };
        let ghost start: int = from as int;
        let mut i: usize = from;
        while i < old_items.len()
            invariant
                old_items@ == self.items(),
                old_keys == keys_of(self.items()),
                start == from,
                from <= i <= old_items.len(),
                candidates@ == old_keys.subrange(start, i as int),
            decreases old_items.len() - i,
        {
            candidates.push(old_items[i].get_key());
            i += 1;
        }
        // The last position of every key among the new items.
        let mut positions: HashMap<u64, usize> = HashMap::new();
        let mut j: usize = 0;
        while j < items.len()
            invariant
                j <= items.len(),
                new_keys == keys_of(items@),
                forall|k: u64|
                    positions@.contains_key(k) <==> last_index_of(
                        #[trigger] new_keys.take(j as int),
                        k,
                    ) >= 0,
                forall|k: u64|
                    positions@.contains_key(k) ==> positions@[k] == last_index_of(
                        #[trigger] new_keys.take(j as int),
                        k,
                    ),
            decreases items.len() - j,
        {
            let key = items[j].get_key();
            positions.insert(key, j);
            proof {
                let before = new_keys.take(j as int);
                let after = new_keys.take(j + 1);
                assert(after.drop_last() =~= before);
            }
            j += 1;
        }
        assert(new_keys.take(items.len() as int) =~= new_keys);
        // The first candidate that occurs among the new items.
        let mut cursor: Option<usize> = None;
        let mut c: usize = 0;
        while c < candidates.len()
            invariant_except_break
                c <= candidates.len(),
                cursor is None,
                first_kept(old_keys, start, new_keys) == first_kept(old_keys, start + c, new_keys),
            invariant
                candidates@ == old_keys.subrange(start, old_keys.len() as int),
                0 <= start <= old_keys.len(),
                new_keys.len() <= usize::MAX,
                forall|k: u64| positions@.contains_key(k) <==> last_index_of(new_keys, k) >= 0,
                forall|k: u64| positions@.contains_key(k) ==> positions@[k] == last_index_of(new_keys, k),
            ensures
                cursor == (if first_kept(old_keys, start, new_keys) < 0 {
                    None
                } else {
                    Some(
                        last_index_of(
                            new_keys,
                            old_keys[first_kept(old_keys, start, new_keys)],
                        ) as usize,
                    )
                }),
            decreases candidates.len() - c,
        {
            let key = candidates[c];
            proof {
                lemma_last_index_of(new_keys, key);
            }
            match positions.get(&key) {
                Some(position) => {
                    cursor = Some(*position);
                    break ;
                },
                None => {},
            }
            c += 1;
        }
        self.set_items(items);
        self.set_cursor(cursor);
    }
}

} // verus!
