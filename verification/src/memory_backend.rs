//! A store that keeps its messages in memory.

use vstd::prelude::*;
use crate::filter::{FilterView, MessageFilter};
use crate::mailbox::valid_mailbox;
use crate::message::{validate_messages, MailboxInfo, Message, NewMessage, State};
use crate::message_list::{
    clone_messages,
    matching,
    partition_messages,
    restate_messages,
    restated_all,
};
use crate::store::{
    Backend,
    StoreError,
    count_in,
    ids_ascending,
    is_mailbox_counts,
    newest_first,
    sort_latest_first,
    sorted_latest_first,
    store_valid,
};
use crate::text::{lemma_lex_lt_irreflexive, lemma_lex_lt_total, lemma_lex_lt_transitive, lex_lt};

verus! {

/// A store in memory. The ids start at 1. The time of a new message is the
/// time that the store was last set to.
pub struct MemoryBackend {
    messages: Vec<Message>,
    last_id: u32,
    now: i64,
}

/// What passes or fails a filter is part of the list, in its order.
pub proof fn lemma_matching_part(s: Seq<Message>, f: FilterView, keep: bool)
    ensures
        matching(s, f, keep).len() <= s.len(),
        forall|i: int|
            0 <= i < matching(s, f, keep).len() ==> s.contains(#[trigger] matching(s, f, keep)[i]),
        ids_ascending(s) ==> ids_ascending(matching(s, f, keep)),
    decreases s.len(),
{
    if s.len() > 0 {
        let rest = s.drop_last();
        lemma_matching_part(rest, f, keep);
    }
}

impl MemoryBackend {
    /// The time that new messages get.
    pub closed spec fn time(&self) -> i64 {
        self.now
    }

    /// The largest id that the store has handed out; 0 where it has handed
    /// out none.
    pub closed spec fn last_id(&self) -> u32 {
        self.last_id
    }

    /// An empty store whose time is 0.
    pub fn new() -> (store: Self)
        ensures
            store.valid(),
            store.stored().len() == 0,
            store.time() == 0,
            store.last_id() == 0,
    {
        MemoryBackend { messages: Vec::new(), last_id: 0, now: 0 }
    }

    /// Sets the time that new messages get, in seconds since the epoch.
    pub fn set_time(&mut self, now: i64)
        ensures
            final(self).stored() == old(self).stored(),
            final(self).valid() == old(self).valid(),
            final(self).last_id() == old(self).last_id(),
            final(self).time() == now,
    {
        self.now = now;
    }
}

impl Backend for MemoryBackend {
    closed spec fn stored(&self) -> Seq<Message> {
        self.messages@
    }

    closed spec fn valid(&self) -> bool {
        &&& store_valid(self.messages@)
        &&& forall|i: int|
            0 <= i < self.messages@.len() ==> (#[trigger] self.messages@[i]).id <= self.last_id
    }

    open spec fn always_answers() -> bool {
        true
    }

    /// Adds the messages of a batch, all with the time of the store, and
    /// with the ids that follow the largest id handed out so far, the
    /// first message of the batch with the largest. Fails for a batch with
    /// a message without content, and for a batch that needs more ids than
    /// 32 bits have left, and for no other.
    fn add_messages(&mut self, messages: Vec<NewMessage>) -> (r: Result<Vec<Message>, StoreError>)
        ensures
            final(self).time() == old(self).time(),
            if exists|i: int| 0 <= i < messages@.len() && (#[trigger] messages@[i]).content@.len() == 0 {
                r == Err::<Vec<Message>, StoreError>(StoreError::EmptyContent)
            } else if old(self).last_id() + messages@.len() > u32::MAX {
                r matches Err(StoreError::Backend(_))
            } else {
                &&& r matches Ok(added)
                &&& final(self).last_id() == old(self).last_id() + messages@.len()
                &&& forall|i: int|
                    0 <= i < r->Ok_0@.len() ==> {
                        &&& (#[trigger] r->Ok_0@[i]).timestamp == old(self).time()
                        &&& r->Ok_0@[i].id == old(self).last_id() + messages@.len() - i
                    }
            },
            r is Err ==> final(self).last_id() == old(self).last_id(),
    {
        let n = messages.len();
        if validate_messages(&messages).is_err() {
            return Err(StoreError::EmptyContent);
        }
        if n > (u32::MAX - self.last_id) as usize {
            return Err(StoreError::Backend("the store has no ids left".to_owned()));
        }
        let base = self.last_id;
        self.last_id = base + n as u32;
        let now = self.now;
        let mut added: Vec<Message> = Vec::new();
        let mut i: usize = 0;
        while i < n
            invariant
                i <= n,
                n == messages@.len(),
                base + n <= u32::MAX,
                forall|k: int| 0 <= k < n ==> (#[trigger] messages@[k]).content@.len() != 0,
                added@.len() == i,
                forall|k: int|
                    0 <= k < i ==> {
                        &&& (#[trigger] added@[k]).id == base + n - k
                        &&& valid_mailbox(added@[k].mailbox@)
                        &&& added@[k].timestamp == now
                        &&& added@[k].mailbox@ == messages@[k].mailbox@
                        &&& added@[k].content@ == messages@[k].content@
                        &&& added@[k].state == messages@[k].initial_state()
                    },
            decreases n - i,
        {
            let message = &messages[i];
            let state = match message.state {
                Some(state) => state,
                None => State::Unread,
            };
            let _ = message.mailbox.as_str();
            added.push(
                Message {
                    id: base + (n - i) as u32,
                    timestamp: now,
                    mailbox: message.mailbox.clone(),
                    content: message.content.clone(),
                    state,
                },
            );
            i += 1;
        }
        let ghost before = self.messages@;
        let mut j: usize = n;
        while j > 0
            invariant
                j <= n,
                n == added@.len(),
                base + n == self.last_id,
                self.now == now,
                store_valid(before),
                forall|k: int| 0 <= k < before.len() ==> (#[trigger] before[k]).id <= base,
                forall|k: int|
                    0 <= k < n ==> (#[trigger] added@[k]).id == base + n - k && added@[k].content@.len()
                        > 0 && valid_mailbox(added@[k].mailbox@),
                self.messages@ == before + added@.reverse().take(n - j),
            decreases j,
        {
            j -= 1;
            self.messages.push(added[j].clone());
        }
        Ok(added)
    }

    fn load_messages(&self, filter: MessageFilter) -> (r: Result<Vec<Message>, StoreError>)
        ensures
            r is Ok,
    {
        let mut loaded: Vec<Message> = Vec::new();
        let mut i: usize = self.messages.len();
        assert(self.messages@.take(i as int) =~= self.messages@);
        while i > 0
            invariant
                i <= self.messages.len(),
                newest_first(self.messages@, filter@) == loaded@ + newest_first(
                    self.messages@.take(i as int),
                    filter@,
                ),
            decreases i,
        {
            proof {
                let t = self.messages@.take(i as int);
                assert(t.drop_last() =~= self.messages@.take(i - 1));
            }
            i -= 1;
            if filter.matches_message(&self.messages[i]) {
                loaded.push(self.messages[i].clone());
            }
        }
        Ok(loaded)
    }

    fn change_state(&mut self, filter: MessageFilter, new_state: State) -> (r: Result<
        Vec<Message>,
        StoreError,
    >)
        ensures
            r matches Ok(changed) && changed@ == sorted_latest_first(
                restated_all(matching(old(self).stored(), filter@, true), filter@, new_state),
            ),
            final(self).time() == old(self).time(),
            final(self).last_id() == old(self).last_id(),
    {
        let items = clone_messages(&self.messages);
        let (hit, _) = partition_messages(items, &filter);
        let changed = restate_messages(&hit, &filter, new_state);
        let after = restate_messages(&self.messages, &filter, new_state);
        self.messages = after;
        Ok(sort_latest_first(changed))
    }

    fn delete_messages(&mut self, filter: MessageFilter) -> (r: Result<Vec<Message>, StoreError>)
        ensures
            r matches Ok(deleted) && deleted@ == sorted_latest_first(
                matching(old(self).stored(), filter@, true),
            ),
            final(self).time() == old(self).time(),
            final(self).last_id() == old(self).last_id(),
    {
        let ghost before = self.messages@;
        let items = clone_messages(&self.messages);
        let (deleted, kept) = partition_messages(items, &filter);
        proof {
            lemma_matching_part(before, filter@, false);
        }
        self.messages = kept;
        Ok(sort_latest_first(deleted))
    }

    fn load_mailboxes(&self, filter: MessageFilter) -> (r: Result<Vec<MailboxInfo>, StoreError>)
        ensures
            r is Ok,
    {
        let items = clone_messages(&self.messages);
        let (hit, _) = partition_messages(items, &filter);
        Ok(count_by_mailbox(&hit))
    }
}

/// The messages counted by mailbox, in ascending order of path.
pub fn count_by_mailbox(messages: &Vec<Message>) -> (infos: Vec<MailboxInfo>)
    ensures
        is_mailbox_counts(infos@, messages@),
{
    let mut infos: Vec<MailboxInfo> = Vec::new();
    let mut n: usize = 0;
    while n < messages.len()
        invariant
            n <= messages.len(),
            is_mailbox_counts(infos@, messages@.take(n as int)),
            forall|i: int| 0 <= i < infos@.len() ==> (#[trigger] infos@[i]).message_count <= n,
        decreases messages.len() - n,
    {
        let name = &messages[n].mailbox;
        let ghost done = messages@.take(n as int);
        let ghost next = messages@.take(n + 1);
        proof {
            assert(next.drop_last() =~= done);
        }
        // The place of the first entry that does not come before the
        // mailbox.
        let mut p: usize = 0;
        while p < infos.len() && infos[p].name.precedes(name)
            invariant
                p <= infos@.len(),
                forall|q: int| 0 <= q < p ==> lex_lt((#[trigger] infos@[q]).name@, name@),
            decreases infos.len() - p,
        {
            p += 1;
        }
        let ghost before = infos@;
        let found = p < infos.len() && infos[p].name.same(name);
        if found {
            let entry = MailboxInfo { name: name.clone(), message_count: infos[p].message_count + 1 };
            infos.set(p, entry);
            proof {
                let after = infos@;
                assert forall|k: int| 0 <= k < next.len() implies exists|i: int|
                    0 <= i < after.len() && (#[trigger] after[i]).name@ == (#[trigger] next[k]).mailbox@ by {
                    if k < n {
                        let i = choose|i: int|
                            0 <= i < before.len() && (#[trigger] before[i]).name@ == done[k].mailbox@;
                        assert(after[i].name@ == next[k].mailbox@);
                    } else {
                        assert(after[p as int].name@ == next[k].mailbox@);
                    }
                }
            }
        } else {
            proof {
                assert forall|i: int| 0 <= i < before.len() implies (#[trigger] before[i]).name@
                    != name@ by {
                    lemma_lex_lt_irreflexive(name@);
                }
                lemma_count_zero(done, before, name@);
            }
            let entry = MailboxInfo { name: name.clone(), message_count: 1 };
            infos.insert(p, entry);
            proof {
                let after = infos@;
                assert forall|i: int, j: int| 0 <= i < j < after.len() implies lex_lt(
                    (#[trigger] after[i]).name@,
                    (#[trigger] after[j]).name@,
                ) by {
                    let x = name@;
                    if p < before.len() {
                        lemma_lex_lt_total(before[p as int].name@, x);
                    }
                    if j < p {
                    } else if j == p {
                    } else if i < p {
                    } else if i == p {
                        if j - 1 > p {
                            lemma_lex_lt_transitive(x, before[p as int].name@, before[j - 1].name@);
                        }
                    }
                }
                assert forall|k: int| 0 <= k < next.len() implies exists|i: int|
                    0 <= i < after.len() && (#[trigger] after[i]).name@ == (#[trigger] next[k]).mailbox@ by {
                    if k < n {
                        let i = choose|i: int|
                            0 <= i < before.len() && (#[trigger] before[i]).name@ == done[k].mailbox@;
                        if i < p {
                            assert(after[i].name@ == next[k].mailbox@);
                        } else {
                            assert(after[i + 1].name@ == next[k].mailbox@);
                        }
                    } else {
                        assert(after[p as int].name@ == next[k].mailbox@);
                    }
                }
            }
        }
        n += 1;
    }
    assert(messages@.take(messages.len() as int) =~= messages@);
    infos
}

/// A mailbox without an entry holds no message.
proof fn lemma_count_zero(messages: Seq<Message>, infos: Seq<MailboxInfo>, name: Seq<char>)
    requires
        is_mailbox_counts(infos, messages),
        forall|i: int| 0 <= i < infos.len() ==> (#[trigger] infos[i]).name@ != name,
    ensures
        count_in(messages, name) == 0,
{
    lemma_count_none(messages, name);
}

proof fn lemma_count_none(messages: Seq<Message>, name: Seq<char>)
    requires
        forall|k: int| 0 <= k < messages.len() ==> (#[trigger] messages[k]).mailbox@ != name,
    ensures
        count_in(messages, name) == 0,
    decreases messages.len(),
{
    if messages.len() > 0 {
        let rest = messages.drop_last();
        lemma_count_none(rest, name);
    }
}

} // verus!
