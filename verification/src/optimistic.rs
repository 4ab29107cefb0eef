//! Why the interactive program may change its list of messages before the
//! store has answered: the list it makes is the list that the store would
//! return.

use vstd::prelude::*;
use crate::filter::{FilterView, filter_matches};
use crate::message::{Message, State};
use crate::message_list::{matching, restated, restated_all};
use crate::store::newest_first;

verus! {

/// What of a list passes a filter: of a message before a list, the message
/// if it passes, and then what passes of the list.
proof fn lemma_matching_first(first: Message, rest: Seq<Message>, f: FilterView, keep: bool)
    ensures
        matching(seq![first] + rest, f, keep) == (if filter_matches(f, first@) == keep {
            seq![first]
        } else {
            Seq::empty()
        }) + matching(rest, f, keep),
    decreases rest.len(),
{
    let all = seq![first] + rest;
    if rest.len() == 0 {
        assert(matching(all.drop_last(), f, keep) =~= Seq::<Message>::empty());
    } else {
        assert(all.drop_last() =~= seq![first] + rest.drop_last());
        lemma_matching_first(first, rest.drop_last(), f, keep);
    }
}

/// After a change of states, the list that the program makes of the
/// messages it shows is the list that the store returns for the display
/// filter: where the list before was what the store returned, and the
/// change touches only messages that are shown.
pub proof fn lemma_optimistic_change_agrees(
    stored: Seq<Message>,
    display: FilterView,
    action: FilterView,
    new_state: State,
)
    requires
        forall|i: int|
            0 <= i < stored.len() && filter_matches(action, (#[trigger] stored[i])@)
                ==> filter_matches(display, stored[i]@),
    ensures
        matching(restated_all(newest_first(stored, display), action, new_state), display, true)
            == newest_first(restated_all(stored, action, new_state), display),
    decreases stored.len(),
{
    let changed = restated_all(stored, action, new_state);
    if stored.len() == 0 {
    } else {
        let rest = stored.drop_last();
        let last = stored.last();
        lemma_optimistic_change_agrees(rest, display, action, new_state);
        assert(changed.drop_last() =~= restated_all(rest, action, new_state));
        let shown = newest_first(rest, display);
        if filter_matches(display, last@) {
            assert(restated_all(seq![last] + shown, action, new_state) =~= seq![
                restated(last, action, new_state),
            ] + restated_all(shown, action, new_state));
            lemma_matching_first(
                restated(last, action, new_state),
                restated_all(shown, action, new_state),
                display,
                true,
            );
        }
    }
}

/// After a deletion, the list that the program makes of the messages it
/// shows is the list that the store returns for the display filter, where
/// the list before was what the store returned.
pub proof fn lemma_optimistic_delete_agrees(
    stored: Seq<Message>,
    display: FilterView,
    action: FilterView,
)
    ensures
        matching(newest_first(stored, display), action, false) == newest_first(
            matching(stored, action, false),
            display,
        ),
    decreases stored.len(),
{
    if stored.len() > 0 {
        let rest = stored.drop_last();
        let last = stored.last();
        lemma_optimistic_delete_agrees(rest, display, action);
        let kept = matching(stored, action, false);
        if filter_matches(display, last@) {
            lemma_matching_first(last, newest_first(rest, display), action, false);
        }
        if !filter_matches(action, last@) {
            assert(kept.drop_last() =~= matching(rest, action, false));
        }
    }
}

} // verus!
