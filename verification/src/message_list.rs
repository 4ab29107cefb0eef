//! Lists of messages: choosing by a filter, and changing states.

use vstd::prelude::*;
use crate::filter::{FilterView, MessageFilter, filter_matches};
use crate::message::{Message, State};

verus! {

/// The messages of `items` that pass or, with `keep` false, fail the filter,
/// in their order.
pub open spec fn matching(items: Seq<Message>, filter: FilterView, keep: bool) -> Seq<Message>
    decreases items.len(),
{
    if items.len() == 0 {
        Seq::empty()
    } else if filter_matches(filter, items.last()@) == keep {
        matching(items.drop_last(), filter, keep).push(items.last())
    } else {
        matching(items.drop_last(), filter, keep)
    }
}

/// The message as it is after the messages that pass `action` were put
/// into `new_state`.
pub open spec fn restated(m: Message, action: FilterView, new_state: State) -> Message {
    if filter_matches(action, m@) {
        Message { state: new_state, ..m }
    } else {
        m
    }
}

/// Splits `items` into the messages that pass the filter and those that
/// fail it, each in their order.
pub fn partition_messages(items: Vec<Message>, filter: &MessageFilter) -> (r: (
    Vec<Message>,
    Vec<Message>,
))
    ensures
        r.0@ == matching(items@, filter@, true),
        r.1@ == matching(items@, filter@, false),
{
    let mut pass: Vec<Message> = Vec::new();
    let mut fail: Vec<Message> = Vec::new();
    let mut i: usize = 0;
    while i < items.len()
        invariant
            i <= items.len(),
            pass@ == matching(items@.take(i as int), filter@, true),
            fail@ == matching(items@.take(i as int), filter@, false),
        decreases items.len() - i,
    {
        proof {
            let t = items@.take(i + 1);
            assert(t.drop_last() =~= items@.take(i as int));
        }
        let message = items[i].clone();
        if filter.matches_message(&message) {
            pass.push(message);
        } else {
            fail.push(message);
        }
        i += 1;
    }
    assert(items@.take(items.len() as int) =~= items@);
    (pass, fail)
}

/// A copy of a list of messages.
pub fn clone_messages(items: &Vec<Message>) -> (r: Vec<Message>)
    ensures
        r@ == items@,
{
    let mut r: Vec<Message> = Vec::new();
    let mut i: usize = 0;
    while i < items.len()
        invariant
            i <= items.len(),
            r@ == items@.take(i as int),
        decreases items.len() - i,
    {
        r.push(items[i].clone());
        i += 1;
    }
    r
}

/// The messages as they are after those that pass `action` were put into
/// `new_state`.
pub open spec fn restated_all(items: Seq<Message>, action: FilterView, new_state: State) -> Seq<
    Message,
> {
    items.map_values(|m: Message| restated(m, action, new_state))
}

/// The messages after those that pass `action` were put into `new_state`.
pub fn restate_messages(items: &Vec<Message>, action: &MessageFilter, new_state: State) -> (r: Vec<
    Message,
>)
    ensures
        r@ == restated_all(items@, action@, new_state),
{
    let mut r: Vec<Message> = Vec::new();
    let mut i: usize = 0;
    while i < items.len()
        invariant
            i <= items.len(),
            r@.len() == i,
            forall|k: int| 0 <= k < i ==> r@[k] == restated(items@[k], action@, new_state),
        decreases items.len() - i,
    {
        let message = items[i].clone();
        if action.matches_message(&message) {
            r.push(message.with_state(new_state));
        } else {
            r.push(message);
        }
        i += 1;
    }
    r
}

} // verus!
