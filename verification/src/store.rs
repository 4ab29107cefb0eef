//! The contract of a message store, and the facade in front of it.
//!
//! A store keeps messages and hands out their ids. Five operations work on
//! it: adding, loading, changing states, deleting, and counting by
//! mailbox. The contract says what each of them returns and how it changes
//! what is stored.

use vstd::prelude::*;
use crate::filter::{FilterView, MessageFilter, filter_matches};
use crate::mailbox::valid_mailbox;
use crate::message::{validate_messages, MailboxInfo, Message, NewMessage, State, state_code};
use crate::message_list::{matching, restated_all};
use crate::text::lex_lt;

verus! {

/// Why an operation on a store failed.
#[derive(Debug, PartialEq, Eq)]
pub enum StoreError {
    /// A message to be added has no content.
    EmptyContent,
    /// The store itself failed; the text says how.
    Backend(String),
}

/// The ids of the messages grow along the sequence.
pub open spec fn ids_ascending(s: Seq<Message>) -> bool {
    forall|i: int, j: int| 0 <= i < j < s.len() ==> (#[trigger] s[i]).id < (#[trigger] s[j]).id
}

/// What holds of the messages in a store, in the order in which they were
/// stored: every message has content, its mailbox is a mailbox path, its
/// state is stored as 0, 1 or 2, and the ids grow, so that no id occurs
/// twice.
pub open spec fn store_valid(s: Seq<Message>) -> bool {
    &&& ids_ascending(s)
    &&& forall|i: int|
        0 <= i < s.len() ==> {
            &&& (#[trigger] s[i]).content@.len() > 0
            &&& valid_mailbox(s[i].mailbox@)
            &&& state_code(s[i].state) <= 2
        }
}

/// The ids of the messages fall along the sequence.
pub open spec fn sorted_by_id_desc(s: Seq<Message>) -> bool {
    forall|i: int, j: int| 0 <= i < j < s.len() ==> (#[trigger] s[i]).id > (#[trigger] s[j]).id
}

/// The times of the messages do not rise along the sequence.
pub open spec fn sorted_by_time_desc(s: Seq<Message>) -> bool {
    forall|i: int, j: int|
        0 <= i < j < s.len() ==> (#[trigger] s[i]).timestamp >= (#[trigger] s[j]).timestamp
}

/// The stored messages that pass the filter, the one stored last first.
pub open spec fn newest_first(stored: Seq<Message>, f: FilterView) -> Seq<Message>
    decreases stored.len(),
{
    if stored.len() == 0 {
        Seq::empty()
    } else if filter_matches(f, stored.last()@) {
        seq![stored.last()] + newest_first(stored.drop_last(), f)
    } else {
        newest_first(stored.drop_last(), f)
    }
}

/// `added` is what a store returns for the batch `batch`: one message for
/// every message of the batch, in the order of the batch, with its mailbox
/// and content, and in the state it names or else unread.
pub open spec fn is_batch(added: Seq<Message>, batch: Seq<NewMessage>) -> bool {
    &&& added.len() == batch.len()
    &&& forall|i: int|
        0 <= i < added.len() ==> {
            &&& (#[trigger] added[i]).mailbox@ == batch[i].mailbox@
            &&& added[i].content@ == batch[i].content@
            &&& added[i].state == batch[i].initial_state()
        }
}

/// `sorted` holds the messages of `messages`, each as often, the latest
/// first.
pub open spec fn is_latest_first(sorted: Seq<Message>, messages: Seq<Message>) -> bool {
    sorted.to_multiset() == messages.to_multiset() && sorted_by_time_desc(sorted)
}

/// The number of messages in the mailbox `name` itself.
pub open spec fn count_in(messages: Seq<Message>, name: Seq<char>) -> nat
    decreases messages.len(),
{
    if messages.len() == 0 {
        0
    } else {
        count_in(messages.drop_last(), name) + if messages.last().mailbox@ == name {
            1nat
        } else {
            0nat
        }
    }
}

/// `infos` counts the messages by mailbox: one entry for every mailbox
/// that holds a message, with the number of messages in that mailbox
/// itself, in ascending order of path.
pub open spec fn is_mailbox_counts(infos: Seq<MailboxInfo>, messages: Seq<Message>) -> bool {
    &&& forall|i: int, j: int|
        0 <= i < j < infos.len() ==> lex_lt((#[trigger] infos[i]).name@, (#[trigger] infos[j]).name@)
    &&& forall|i: int|
        0 <= i < infos.len() ==> {
            &&& (#[trigger] infos[i]).message_count > 0
            &&& infos[i].message_count == count_in(messages, infos[i].name@)
        }
    &&& forall|k: int|
        0 <= k < messages.len() ==> exists|i: int|
            0 <= i < infos.len() && (#[trigger] infos[i]).name@ == (#[trigger] messages[k]).mailbox@
}

/// A message is among those loaded exactly if it is stored and passes the
/// filter.
pub proof fn lemma_load_matches(stored: Seq<Message>, f: FilterView, m: Message)
    ensures
        newest_first(stored, f).contains(m) <==> (stored.contains(m) && filter_matches(f, m@)),
    decreases stored.len(),
{
    let r = newest_first(stored, f);
    if stored.len() > 0 {
        let rest = stored.drop_last();
        let last = stored.last();
        lemma_load_matches(rest, f, m);
        let tail = newest_first(rest, f);
        if r.contains(m) {
            let i = choose|i: int| 0 <= i < r.len() && r[i] == m;
        }
        if stored.contains(m) && filter_matches(f, m@) {
            let k = choose|k: int| 0 <= k < stored.len() && stored[k] == m;
            if k == stored.len() - 1 {
                assert(r[0] == m);
            } else {
                assert(rest[k] == m);
                let i = choose|i: int| 0 <= i < tail.len() && tail[i] == m;
                if filter_matches(f, last@) {
                    assert(r[i + 1] == m);
                }
            }
        }
    }
}

/// What is loaded from a store whose ids grow comes with falling ids.
pub proof fn lemma_load_sorted(stored: Seq<Message>, f: FilterView)
    requires
        ids_ascending(stored),
    ensures
        sorted_by_id_desc(newest_first(stored, f)),
        forall|i: int|
            0 <= i < newest_first(stored, f).len() ==> stored.contains(
                #[trigger] newest_first(stored, f)[i],
            ),
    decreases stored.len(),
{
    if stored.len() > 0 {
        let rest = stored.drop_last();
        lemma_load_sorted(rest, f);
    }
}

/// A store of messages.
///
/// `stored` is what the store holds, in the order in which it was stored.
/// An operation may fail for reasons of the store's own, and then leaves
/// what is stored as it was. A store of a kind that always answers does
/// not fail to load, to change, to delete or to count.
pub trait Backend {
    /// The messages in the store, in the order in which they were stored.
    spec fn stored(&self) -> Seq<Message>;

    /// What the store keeps true of itself between the operations. Every
    /// operation says of the messages of a store for which this holds that
    /// they are valid.
    spec fn valid(&self) -> bool;

    /// Whether a store of this kind answers every request to load, to
    /// change, to delete and to count. So it is with a store that holds
    /// its messages itself; a store behind a file or a network may fail at
    /// any time, and leaves this false.
    spec fn always_answers() -> bool;

    /// Adds the messages of a batch. The first message of the batch gets
    /// the largest id, so that loading returns the batch in its own order.
    /// A batch with a message without content is refused, and no other
    /// batch is refused for want of content; an empty batch is added
    /// without fail and changes nothing.
    fn add_messages(&mut self, messages: Vec<NewMessage>) -> (r: Result<Vec<Message>, StoreError>)
        requires
            old(self).valid(),
        ensures
            final(self).valid(),
            store_valid(old(self).stored()),
            store_valid(final(self).stored()),
            match r {
                Ok(added) => {
                    &&& is_batch(added@, messages@)
                    &&& final(self).stored() == old(self).stored() + added@.reverse()
                },
                Err(_) => final(self).stored() == old(self).stored(),
            },
            (exists|i: int| 0 <= i < messages@.len() && (#[trigger] messages@[i]).content@.len() == 0)
                ==> r is Err,
            r == Err::<Vec<Message>, StoreError>(StoreError::EmptyContent) ==> exists|i: int|
                0 <= i < messages@.len() && (#[trigger] messages@[i]).content@.len() == 0,
            messages@.len() == 0 ==> (r matches Ok(added) && added@.len() == 0),
    ;

    /// Loads the messages that pass the filter, the one with the largest id
    /// first.
    fn load_messages(&self, filter: MessageFilter) -> (r: Result<Vec<Message>, StoreError>)
        requires
            self.valid(),
        ensures
            store_valid(self.stored()),
            r matches Ok(loaded) ==> loaded@ == newest_first(self.stored(), filter@),
            Self::always_answers() ==> r is Ok,
    ;

    /// Puts the messages that pass the filter into `new_state`, and returns
    /// them as they are then, the latest first. A message that was in that
    /// state already is returned too.
    fn change_state(&mut self, filter: MessageFilter, new_state: State) -> (r: Result<
        Vec<Message>,
        StoreError,
    >)
        requires
            old(self).valid(),
        ensures
            final(self).valid(),
            store_valid(old(self).stored()),
            store_valid(final(self).stored()),
            match r {
                Ok(changed) => {
                    &&& final(self).stored() == restated_all(old(self).stored(), filter@, new_state)
                    &&& is_latest_first(
                        changed@,
                        restated_all(matching(old(self).stored(), filter@, true), filter@, new_state),
                    )
                },
                Err(_) => final(self).stored() == old(self).stored(),
            },
            Self::always_answers() ==> r is Ok,
    ;

    /// Deletes the messages that pass the filter, and returns them, the
    /// latest first.
    fn delete_messages(&mut self, filter: MessageFilter) -> (r: Result<Vec<Message>, StoreError>)
        requires
            old(self).valid(),
        ensures
            final(self).valid(),
            store_valid(old(self).stored()),
            store_valid(final(self).stored()),
            match r {
                Ok(deleted) => {
                    &&& final(self).stored() == matching(old(self).stored(), filter@, false)
                    &&& is_latest_first(deleted@, matching(old(self).stored(), filter@, true))
                },
                Err(_) => final(self).stored() == old(self).stored(),
            },
            Self::always_answers() ==> r is Ok,
    ;

    /// Counts the messages that pass the filter by mailbox.
    fn load_mailboxes(&self, filter: MessageFilter) -> (r: Result<Vec<MailboxInfo>, StoreError>)
        requires
            self.valid(),
        ensures
            store_valid(self.stored()),
            r matches Ok(infos) ==> is_mailbox_counts(
                infos@,
                matching(self.stored(), filter@, true),
            ),
            Self::always_answers() ==> r is Ok,
    ;
}

/// The facade in front of a store: it checks what comes in and hands it on.
pub struct Database<B: Backend> {
    backend: B,
}

impl<B: Backend> Database<B> {
    /// The messages in the store behind the facade.
    pub closed spec fn stored(&self) -> Seq<Message> {
        self.backend.stored()
    }

    /// The store behind the facade is valid, and so are its messages.
    pub closed spec fn valid(&self) -> bool {
        self.backend.valid() && store_valid(self.backend.stored())
    }

    /// Whether the store behind the facade is of a kind that answers every
    /// request to load, to change, to delete and to count.
    pub open spec fn always_answers() -> bool {
        B::always_answers()
    }

    /// A facade in front of `backend`.
    pub fn new(backend: B) -> (db: Self)
        ensures
            db.stored() == backend.stored(),
            db.valid() == (backend.valid() && store_valid(backend.stored())),
    {
        Database { backend }
    }

    /// The store behind the facade.
    pub fn backend(&self) -> (b: &B)
        ensures
            b.stored() == self.stored(),
            self.valid() == (b.valid() && store_valid(b.stored())),
    {
        &self.backend
    }

    /// Adds the messages of a batch. A batch with a message without content
    /// is refused before the store is asked, and no other batch is refused
    /// for want of content; any other batch is handed to the store, which
    /// adds an empty batch without fail.
    pub fn add_messages(&mut self, messages: Vec<NewMessage>) -> (r: Result<Vec<Message>, StoreError>)
        requires
            old(self).valid(),
        ensures
            final(self).valid(),
            store_valid(old(self).stored()),
            store_valid(final(self).stored()),
            match r {
                Ok(added) => {
                    &&& is_batch(added@, messages@)
                    &&& final(self).stored() == old(self).stored() + added@.reverse()
                    &&& forall|i: int| 0 <= i < messages@.len() ==> (#[trigger] messages@[i]).content@.len() > 0
                },
                Err(_) => final(self).stored() == old(self).stored(),
            },
            (exists|i: int| 0 <= i < messages@.len() && (#[trigger] messages@[i]).content@.len() == 0)
                <==> r == Err::<Vec<Message>, StoreError>(StoreError::EmptyContent),
            messages@.len() == 0 ==> (r matches Ok(added) && added@.len() == 0),
    {
        if validate_messages(&messages).is_err() {
            return Err(StoreError::EmptyContent);
        }
        self.backend.add_messages(messages)
    }

    /// Adds one message. A message without content is refused before the
    /// store is asked.
    pub fn add_message(&mut self, message: NewMessage) -> (r: Result<Message, StoreError>)
        requires
            old(self).valid(),
        ensures
            final(self).valid(),
            match r {
                Ok(added) => {
                    &&& message.content@.len() > 0
                    &&& is_batch(seq![added], seq![message])
                    &&& final(self).stored() == old(self).stored().push(added)
                },
                Err(_) => final(self).stored() == old(self).stored(),
            },
            message.content@.len() == 0 <==> r == Err::<Message, StoreError>(
                StoreError::EmptyContent,
            ),
    {
        let mut batch: Vec<NewMessage> = Vec::new();
        batch.push(message);
        assert(batch@[0] == message);
        match self.add_messages(batch) {
            Ok(mut added) => {
                match added.pop() {
                    Some(one) => {
                        Ok(one)
                    },
                    None => Err(StoreError::Backend("the store returned nothing".to_owned())),
                }
            },
            Err(e) => Err(e),
        }
    }

    /// Loads the messages that pass the filter, the one with the largest id
    /// first: what the store behind the facade answers. It fails only where
    /// that store does.
    pub fn load_messages(&self, filter: MessageFilter) -> (r: Result<Vec<Message>, StoreError>)
        requires
            self.valid(),
        ensures
            store_valid(self.stored()),
            r matches Ok(loaded) ==> loaded@ == newest_first(self.stored(), filter@),
            Self::always_answers() ==> r is Ok,
    {
        self.backend.load_messages(filter)
    }

    /// Puts the messages that pass the filter into `new_state`, and returns
    /// them as they are then, the latest first: what the store behind the
    /// facade answers. It fails only where that store does.
    pub fn change_state(&mut self, filter: MessageFilter, new_state: State) -> (r: Result<
        Vec<Message>,
        StoreError,
    >)
        requires
            old(self).valid(),
        ensures
            final(self).valid(),
            store_valid(old(self).stored()),
            store_valid(final(self).stored()),
            match r {
                Ok(changed) => {
                    &&& final(self).stored() == restated_all(old(self).stored(), filter@, new_state)
                    &&& is_latest_first(
                        changed@,
                        restated_all(matching(old(self).stored(), filter@, true), filter@, new_state),
                    )
                },
                Err(_) => final(self).stored() == old(self).stored(),
            },
            Self::always_answers() ==> r is Ok,
    {
        self.backend.change_state(filter, new_state)
    }

    /// Deletes the messages that pass the filter, and returns them, the
    /// latest first: what the store behind the facade answers. It fails
    /// only where that store does.
    pub fn delete_messages(&mut self, filter: MessageFilter) -> (r: Result<Vec<Message>, StoreError>)
        requires
            old(self).valid(),
        ensures
            final(self).valid(),
            store_valid(old(self).stored()),
            store_valid(final(self).stored()),
            match r {
                Ok(deleted) => {
                    &&& final(self).stored() == matching(old(self).stored(), filter@, false)
                    &&& is_latest_first(deleted@, matching(old(self).stored(), filter@, true))
                },
                Err(_) => final(self).stored() == old(self).stored(),
            },
            Self::always_answers() ==> r is Ok,
    {
        self.backend.delete_messages(filter)
    }

    /// Counts the messages that pass the filter by mailbox: what the store
    /// behind the facade answers. It fails only where that store does.
    pub fn load_mailboxes(&self, filter: MessageFilter) -> (r: Result<Vec<MailboxInfo>, StoreError>)
        requires
            self.valid(),
        ensures
            store_valid(self.stored()),
            r matches Ok(infos) ==> is_mailbox_counts(
                infos@,
                matching(self.stored(), filter@, true),
            ),
            Self::always_answers() ==> r is Ok,
    {
        self.backend.load_mailboxes(filter)
    }
}

/// Where a message of the given time goes into a sequence in which the
/// latest comes first: before the first message at or after `from` that is
/// earlier, and so behind the messages of the same time.
pub open spec fn place_of(sorted: Seq<Message>, timestamp: i64, from: int) -> int
    decreases sorted.len() - from,
{
    if from < 0 || from >= sorted.len() {
        sorted.len() as int
    } else if sorted[from].timestamp < timestamp {
        from
    } else {
        place_of(sorted, timestamp, from + 1)
    }
}

/// The messages in the order in which the latest comes first; messages of
/// the same time keep their order.
pub open spec fn sorted_latest_first(messages: Seq<Message>) -> Seq<Message>
    decreases messages.len(),
{
    if messages.len() == 0 {
        Seq::empty()
    } else {
        let rest = sorted_latest_first(messages.drop_last());
        rest.insert(place_of(rest, messages.last().timestamp, 0), messages.last())
    }
}

/// The place of a message lies in the sequence or at its end; no message
/// before it is earlier, and the message at it, if there is one, is.
pub proof fn lemma_place_of(sorted: Seq<Message>, timestamp: i64, from: int)
    requires
        0 <= from <= sorted.len(),
    ensures
        from <= place_of(sorted, timestamp, from) <= sorted.len(),
        forall|q: int|
            from <= q < place_of(sorted, timestamp, from) ==> (#[trigger] sorted[q]).timestamp
                >= timestamp,
        place_of(sorted, timestamp, from) < sorted.len() ==> sorted[place_of(
            sorted,
            timestamp,
            from,
        )].timestamp < timestamp,
    decreases sorted.len() - from,
{
    if from < sorted.len() && sorted[from].timestamp >= timestamp {
        lemma_place_of(sorted, timestamp, from + 1);
    }
}

/// The messages in the order in which the latest comes first; messages of
/// the same time keep their order.
pub fn sort_latest_first(messages: Vec<Message>) -> (sorted: Vec<Message>)
    ensures
        sorted@ == sorted_latest_first(messages@),
        is_latest_first(sorted@, messages@),
{
    let mut sorted: Vec<Message> = Vec::new();
    let mut i: usize = 0;
    assert(messages@.take(0) =~= sorted@);
    while i < messages.len()
        invariant
            i <= messages.len(),
            sorted@ == sorted_latest_first(messages@.take(i as int)),
            sorted@.to_multiset() == messages@.take(i as int).to_multiset(),
            sorted_by_time_desc(sorted@),
        decreases messages.len() - i,
    {
        let message = messages[i].clone();
        // The place behind the messages that are not earlier.
        let mut p: usize = 0;
        while p < sorted.len() && sorted[p].timestamp >= message.timestamp
            invariant
                p <= sorted.len(),
                place_of(sorted@, message.timestamp, 0) == place_of(
                    sorted@,
                    message.timestamp,
                    p as int,
                ),
            decreases sorted.len() - p,
        {
            p += 1;
        }
        let ghost before = sorted@;
        proof {
            lemma_place_of(before, message.timestamp, 0);
        }
        sorted.insert(p, message);
        proof {
            let grown = messages@.take(i + 1);
            assert(grown.drop_last() =~= messages@.take(i as int));
            assert(grown =~= messages@.take(i as int).push(message));
            vstd::seq_lib::to_multiset_build(messages@.take(i as int), message);
            vstd::seq_lib::to_multiset_insert(before, p as int, message);
        }
        i += 1;
    }
    assert(messages@.take(messages.len() as int) =~= messages@);
    sorted
}

} // verus!
