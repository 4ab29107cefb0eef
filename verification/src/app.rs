//! The state of the interactive program: the tree of mailboxes, the list
//! of messages, the states that are shown, and what every action does to
//! them before the store has confirmed it.

use vstd::prelude::*;
use crate::filter::{FilterView, MessageFilter};
use crate::message_list::{
    clone_messages,
    matching,
    partition_messages,
    restate_messages,
    restated_all,
};
use crate::mailbox::{Mailbox, in_subtree};
use crate::mailbox_tree::{MailboxRow, build_mailbox_list, is_mailbox_tree};
use crate::message::{Message, State};
use crate::multiselect_list::{MultiselectList, SelectionMode, selected_of};
use crate::navigable_list::{Keyed, NavigableList, kept_cursor, keys_of};
use crate::tree_list::TreeList;
use crate::worker::{Request, Response};

verus! {

/// One of the two regions of the screen.
#[derive(Clone, Copy, Debug, PartialEq, Eq, Structural)]
pub enum Pane {
    Mailboxes,
    Messages,
}

impl Keyed for Message {
    open spec fn key(&self) -> u64 {
        self.id as u64
    }

    fn get_key(&self) -> (k: u64) {
        self.id as u64
    }
}

/// A set of states.
#[derive(Clone, Copy, Debug, PartialEq, Eq, Structural)]
pub struct StateSet {
    pub unread: bool,
    pub read: bool,
    pub archived: bool,
}

impl StateSet {
    /// Whether the set holds the state.
    pub open spec fn has(self, state: State) -> bool {
        match state {
            State::Unread => self.unread,
            State::Read => self.read,
            State::Archived => self.archived,
        }
    }

    /// The states of the set in the order unread, read, archived.
    pub open spec fn states(self) -> Seq<State> {
        (if self.unread {
            seq![State::Unread]
        } else {
            seq![]
        }) + (if self.read {
            seq![State::Read]
        } else {
            seq![]
        }) + (if self.archived {
            seq![State::Archived]
        } else {
            seq![]
        })
    }

    /// The set with `state` added where it lacks it, and taken out where it
    /// holds it.
    pub open spec fn toggled(self, state: State) -> StateSet {
        match state {
            State::Unread => StateSet { unread: !self.unread, ..self },
            State::Read => StateSet { read: !self.read, ..self },
            State::Archived => StateSet { archived: !self.archived, ..self },
        }
    }

    /// The empty set.
    pub fn new() -> (set: StateSet)
        ensures
            forall|state: State| !set.has(state),
    {
        StateSet { unread: false, read: false, archived: false }
    }

    /// The set of the states of a list.
    pub fn from_states(states: &Vec<State>) -> (set: StateSet)
        ensures
            forall|state: State| set.has(state) == states@.contains(state),
    {
        let mut set = StateSet::new();
        let mut i: usize = 0;
        while i < states.len()
            invariant
                i <= states.len(),
                forall|state: State| set.has(state) == states@.take(i as int).contains(state),
            decreases states.len() - i,
        {
            let ghost before = set;
            match states[i] {
                State::Unread => {
                    set.unread = true;
                },
                State::Read => {
                    set.read = true;
                },
                State::Archived => {
                    set.archived = true;
                },
            }
            proof {
                let grown = states@.take(i + 1);
                assert forall|state: State| set.has(state) == grown.contains(state) by {
                    assert(set.has(state) == (before.has(state) || state == states@[i as int]));
                    if state == states@[i as int] {
                        assert(grown[i as int] == state);
                    }
                }
            }
            i += 1;
        }
        assert(states@.take(states.len() as int) =~= states@);
        set
    }

    /// Whether the set holds the state.
    pub fn contains(&self, state: State) -> (r: bool)
        ensures
            r == self.has(state),
    {
        match state {
            State::Unread => self.unread,
            State::Read => self.read,
            State::Archived => self.archived,
        }
    }

    /// Adds the state where the set lacks it, takes it out where the set
    /// holds it.
    pub fn toggle(&mut self, state: State)
        ensures
            *final(self) == old(self).toggled(state),
    {
        match state {
            State::Unread => {
                self.unread = !self.unread;
            },
            State::Read => {
                self.read = !self.read;
            },
            State::Archived => {
                self.archived = !self.archived;
            },
        }
    }

    /// The states of the set in the order unread, read, archived.
    pub fn to_vec(&self) -> (v: Vec<State>)
        ensures
            v@ == self.states(),
    {
        let mut v: Vec<State> = Vec::new();
        if self.unread {
            v.push(State::Unread);
        }
        if self.read {
            v.push(State::Read);
        }
        if self.archived {
            v.push(State::Archived);
        }
        v
    }
}

/// The number of messages of `messages` in the mailbox `root` or below it.
pub open spec fn count_under(messages: Seq<Message>, root: Seq<char>) -> nat
    decreases messages.len(),
{
    if messages.len() == 0 {
        0
    } else {
        count_under(messages.drop_last(), root) + if in_subtree(root, messages.last().mailbox@) {
            1nat
        } else {
            0nat
        }
    }
}

/// The rows after `removed` left the list of messages: every row loses the
/// messages at or below it, and a row that has none left goes.
pub open spec fn pruned(rows: Seq<MailboxRow>, removed: Seq<Message>) -> Seq<MailboxRow>
    decreases rows.len(),
{
    if rows.len() == 0 {
        Seq::empty()
    } else {
        let row = rows.last();
        let gone = count_under(removed, row.mailbox@);
        if gone >= row.message_count {
            pruned(rows.drop_last(), removed)
        } else {
            pruned(rows.drop_last(), removed).push(
                MailboxRow { message_count: (row.message_count - gone) as usize, ..row },
            )
        }
    }
}

/// The position of the first row of the mailbox `name`.
pub open spec fn row_position(rows: Seq<MailboxRow>, name: Seq<char>, from: int) -> Option<usize>
    decreases rows.len() - from,
{
    if from < 0 || from >= rows.len() {
        None
    } else if rows[from].mailbox@ == name {
        Some(from as usize)
    } else {
        row_position(rows, name, from + 1)
    }
}

/// The state of the interactive program.
pub struct App {
    pub mailboxes: TreeList<MailboxRow>,
    pub messages: MultiselectList<Message>,
    pub active_pane: Pane,
    pub active_states: StateSet,
}

/// The number of messages of `messages` at or below `root`.
fn count_messages_under(messages: &Vec<Message>, root: &Mailbox) -> (n: usize)
    ensures
        n == count_under(messages@, root@),
{
    let mut n: usize = 0;
    let mut i: usize = 0;
    while i < messages.len()
        invariant
            i <= messages.len(),
            n <= i,
            n == count_under(messages@.take(i as int), root@),
        decreases messages.len() - i,
    {
        proof {
            let t = messages@.take(i + 1);
            assert(t.drop_last() =~= messages@.take(i as int));
        }
        if root.is_ancestor_of(&messages[i].mailbox) {
            n += 1;
        }
        i += 1;
    }
    assert(messages@.take(messages.len() as int) =~= messages@);
    n
}

/// The rows after `removed` left the list of messages.
pub fn prune_rows(rows: &Vec<MailboxRow>, removed: &Vec<Message>) -> (r: Vec<MailboxRow>)
    ensures
        r@ == pruned(rows@, removed@),
{
    let mut r: Vec<MailboxRow> = Vec::new();
    let mut i: usize = 0;
    while i < rows.len()
        invariant
            i <= rows.len(),
            r@ == pruned(rows@.take(i as int), removed@),
        decreases rows.len() - i,
    {
        let row = &rows[i];
        proof {
            let t = rows@.take(i + 1);
            assert(t.drop_last() =~= rows@.take(i as int));
        }
        let gone = count_messages_under(removed, &row.mailbox);
        if gone < row.message_count {
            r.push(
                MailboxRow {
                    mailbox: row.mailbox.clone(),
                    depth: row.depth,
                    message_count: row.message_count - gone,
                },
            );
        }
        i += 1;
    }
    assert(rows@.take(rows.len() as int) =~= rows@);
    r
}

impl App {
    /// The mailbox under the cursor of the tree of mailboxes.
    pub open spec fn cursor_mailbox(self) -> Option<Seq<char>> {
        match self.mailboxes.cursor() {
            Some(index) if index < self.mailboxes.items().len() => Some(
                self.mailboxes.items()[index as int].mailbox@,
            ),
            _ => None,
        }
    }

    /// The filter that says which messages are shown: those of the mailbox
    /// under the cursor, if the cursor stands on one, in the states that
    /// are shown.
    pub open spec fn display_filter(self) -> FilterView {
        FilterView {
            ids: None,
            mailbox: self.cursor_mailbox(),
            states: Some(self.active_states.states()),
        }
    }

    /// The ids of the selected messages, in the order of the list.
    pub open spec fn selected_ids(self) -> Seq<u32> {
        selected_of(self.messages.items(), self.messages.selected()).map_values(|m: Message| m.id)
    }

    /// The filter that says which messages the next action touches: the
    /// selected messages, where any are selected; else the message under
    /// the cursor; else none.
    pub open spec fn action_filter(self) -> FilterView {
        let ids = if self.selected_ids().len() > 0 {
            self.selected_ids()
        } else {
            match self.messages.cursor() {
                Some(index) if index < self.messages.items().len() => seq![
                    self.messages.items()[index as int].id,
                ],
                _ => seq![],
            }
        };
        FilterView { ids: Some(ids), mailbox: None, states: None }
    }

    /// The program before anything is loaded: both lists empty and without a
    /// cursor, nothing selected and no selection under way, the messages
    /// pane active and the given states shown. With it comes the request
    /// that loads the mailboxes and the messages for it.
    pub fn new(initial_mailbox: Option<Mailbox>, initial_states: Vec<State>) -> (r: (App, Request))
        ensures
            r.0.mailboxes.items().len() == 0,
            r.0.mailboxes.cursor() is None,
            r.0.messages.items().len() == 0,
            r.0.messages.cursor() is None,
            r.0.messages.selected() == Set::<u64>::empty(),
            r.0.messages.mode() == SelectionMode::Off,
            r.0.active_pane == Pane::Messages,
            forall|state: State| r.0.active_states.has(state) == initial_states@.contains(state),
            r.1 matches Request::InitialLoad { filter, initial_mailbox: asked },
            r.1->InitialLoad_filter@ == (FilterView {
                ids: None,
                mailbox: None,
                states: Some(r.0.active_states.states()),
            }),
            r.1->InitialLoad_initial_mailbox == initial_mailbox,
    {
        let app = App {
            mailboxes: TreeList::new(),
            messages: MultiselectList::new(),
            active_pane: Pane::Messages,
            active_states: StateSet::from_states(&initial_states),
        };
        let filter = MessageFilter::new().with_states(app.active_states.to_vec());
        (app, Request::InitialLoad { filter, initial_mailbox })
    }

    /// Makes `pane` the active pane.
    pub fn activate_pane(&mut self, pane: Pane)
        ensures
            *final(self) == (App { active_pane: pane, ..*old(self) }),
    {
        self.active_pane = pane;
    }

    /// Shows or hides the messages in `state`, and asks for the mailboxes
    /// and the messages anew.
    pub fn toggle_active_state(&mut self, state: State) -> (requests: Vec<Request>)
        ensures
            *final(self) == (App {
                active_states: old(self).active_states.toggled(state),
                ..*old(self)
            }),
            requests@.len() == 2,
            requests@[0] matches Request::LoadMailboxes(f) && f@ == (FilterView {
                ids: None,
                mailbox: None,
                states: Some(final(self).active_states.states()),
            }),
            requests@[1] matches Request::LoadMessages(f) && f@ == final(self).display_filter(),
    {
        self.active_states.toggle(state);
        let mut requests: Vec<Request> = Vec::new();
        requests.push(self.update_mailboxes());
        requests.push(self.update_messages());
        requests
    }

    /// Shows only those of the messages in the list that pass the display
    /// filter. This needs no store.
    pub fn filter_messages(&mut self)
        ensures
            final(self).mailboxes == old(self).mailboxes,
            final(self).active_pane == old(self).active_pane,
            final(self).active_states == old(self).active_states,
            final(self).messages.items() == matching(
                old(self).messages.items(),
                old(self).display_filter(),
                true,
            ),
            final(self).messages.cursor() == kept_cursor(
                keys_of(old(self).messages.items()),
                old(self).messages.cursor(),
                keys_of(final(self).messages.items()),
            ),
            final(self).messages.mode() == old(self).messages.mode(),
            final(self).messages.selected() == old(self).messages.selected().intersect(
                keys_of(final(self).messages.items()).to_set(),
            ),
    {
        let filter = self.get_display_filter();
        let items = clone_messages(self.messages.get_items());
        let (pass, _) = partition_messages(items, &filter);
        self.messages.replace_items(pass);
    }

    /// The request that loads the mailboxes of the messages in the states
    /// that are shown.
    pub fn update_mailboxes(&self) -> (request: Request)
        ensures
            request matches Request::LoadMailboxes(f) && f@ == (FilterView {
                ids: None,
                mailbox: None,
                states: Some(self.active_states.states()),
            }),
    {
        Request::LoadMailboxes(MessageFilter::new().with_states(self.get_active_states()))
    }

    /// The request that loads the messages that pass the display filter.
    pub fn update_messages(&self) -> (request: Request)
        ensures
            request matches Request::LoadMessages(f) && f@ == self.display_filter(),
    {
        Request::LoadMessages(self.get_display_filter())
    }

    /// The states that are shown, in the order unread, read, archived.
    pub fn get_active_states(&self) -> (states: Vec<State>)
        ensures
            states@ == self.active_states.states(),
    {
        self.active_states.to_vec()
    }

    /// The filter that says which messages are shown.
    pub fn get_display_filter(&self) -> (filter: MessageFilter)
        ensures
            filter@ == self.display_filter(),
    {
        let mailbox = match self.mailboxes.get_cursor_item() {
            Some(row) => Some(row.mailbox.clone()),
            None => None,
        };
        MessageFilter::new().with_mailbox_option(mailbox).with_states(self.get_active_states())
    }

    /// The filter that says which messages the next action touches.
    pub fn get_action_filter(&self) -> (filter: MessageFilter)
        ensures
            filter@ == self.action_filter(),
    {
        let selected = self.messages.get_selected_items();
        let mut ids: Vec<u32> = Vec::new();
        let mut i: usize = 0;
        let ghost chosen = selected@.map_values(|item: &Message| *item);
        while i < selected.len()
            invariant
                i <= selected.len(),
                chosen == selected@.map_values(|item: &Message| *item),
                ids@ == chosen.take(i as int).map_values(|m: Message| m.id),
            decreases selected.len() - i,
        {
            ids.push(selected[i].id);
            i += 1;
        }
        if ids.len() == 0 {
            match self.messages.get_cursor_item() {
                Some(message) => {
                    ids.push(message.id);
                },
                None => {
                },
            }
        }
        assert(ids@ == self.action_filter().ids->Some_0);
        MessageFilter::new().with_ids(ids)
    }
}

/// What taking in an answer of the worker does to the program, and the
/// requests that follow from it.
pub open spec fn response_done(
    before: App,
    response: Response,
    after: App,
    requests: Seq<Request>,
) -> bool {
    &&& after.active_pane == before.active_pane
    &&& after.active_states == before.active_states
    &&& match response {
            Response::LoadMessages(messages) => {
                &&& after.mailboxes == before.mailboxes
                &&& after.messages.items() == messages@
                &&& after.messages.cursor() == kept_cursor(
                    keys_of(before.messages.items()),
                    before.messages.cursor(),
                    keys_of(messages@),
                )
                &&& after.messages.mode() == before.messages.mode()
                &&& after.messages.selected() == before.messages.selected().intersect(
                    keys_of(messages@).to_set(),
                )
                &&& requests.len() == 0
            },
            Response::LoadMailboxes(mailboxes) => {
                &&& after.messages == before.messages
                &&& is_mailbox_tree(after.mailboxes.items(), mailboxes@)
                &&& after.mailboxes.cursor() == kept_cursor(
                    keys_of(before.mailboxes.items()),
                    before.mailboxes.cursor(),
                    keys_of(after.mailboxes.items()),
                )
                &&& if before.display_filter() == after.display_filter() {
                    requests.len() == 0
                } else {
                    &&& requests.len() == 1
                    &&& requests[0] matches Request::LoadMessages(f) && f@ == after.display_filter()
                }
            },
            Response::Mutated { refresh } => {
                &&& after == before
                &&& if refresh {
                    &&& requests.len() == 2
                    &&& requests[0] matches Request::LoadMailboxes(f) && f@ == (FilterView {
                        ids: None,
                        mailbox: None,
                        states: Some(before.active_states.states()),
                    })
                    &&& requests[1] matches Request::LoadMessages(f) && f@ == before.display_filter()
                } else {
                    requests.len() == 0
                }
            },
            Response::InitialLoad { mailboxes, messages, initial_mailbox } => {
                &&& is_mailbox_tree(after.mailboxes.items(), mailboxes@)
                &&& after.mailboxes.cursor() == match initial_mailbox {
                    Some(m) => row_position(after.mailboxes.items(), m@, 0),
                    None => kept_cursor(
                        keys_of(before.mailboxes.items()),
                        before.mailboxes.cursor(),
                        keys_of(after.mailboxes.items()),
                    ),
                }
                &&& after.messages.items() == messages@
                &&& after.messages.cursor() == kept_cursor(
                    keys_of(before.messages.items()),
                    before.messages.cursor(),
                    keys_of(messages@),
                )
                &&& after.messages.mode() == before.messages.mode()
                &&& after.messages.selected() == before.messages.selected().intersect(
                    keys_of(messages@).to_set(),
                )
                &&& requests.len() == 0
            },
        }
}

/// The requests of the parts, one part after the other.
pub open spec fn all_requests(parts: Seq<Seq<Request>>) -> Seq<Request>
    decreases parts.len(),
{
    if parts.len() == 0 {
        Seq::empty()
    } else {
        all_requests(parts.drop_last()) + parts.last()
    }
}

/// What taking in a list of answers does: the program passes through one
/// state after every answer, `states`, and every answer gives its part of
/// the requests, `parts`.
pub open spec fn responses_done(
    responses: Seq<Response>,
    states: Seq<App>,
    parts: Seq<Seq<Request>>,
) -> bool {
    &&& states.len() == responses.len() + 1
    &&& parts.len() == responses.len()
    &&& forall|i: int|
        0 <= i < responses.len() ==> response_done(
            #[trigger] states[i],
            responses[i],
            states[i + 1],
            parts[i],
        )
}

/// What the program looks like after the messages `removed` left the list
/// of messages and `kept` stayed: the list holds `kept`, its cursor and its
/// selection follow by key, every row of the tree has lost the messages
/// removed at or below it, and the cursor of the tree follows by key.
pub open spec fn after_removal(
    before: App,
    after: App,
    kept: Seq<Message>,
    removed: Seq<Message>,
) -> bool {
    &&& after.active_pane == before.active_pane
    &&& after.active_states == before.active_states
    &&& after.messages.items() == kept
    &&& after.messages.cursor() == kept_cursor(
        keys_of(before.messages.items()),
        before.messages.cursor(),
        keys_of(kept),
    )
    &&& after.messages.mode() == before.messages.mode()
    &&& after.messages.selected() == before.messages.selected().intersect(keys_of(kept).to_set())
    &&& after.mailboxes.items() == pruned(before.mailboxes.items(), removed)
    &&& after.mailboxes.cursor() == kept_cursor(
        keys_of(before.mailboxes.items()),
        before.mailboxes.cursor(),
        keys_of(after.mailboxes.items()),
    )
}

impl App {
    /// Takes the messages out of the counts of the tree of mailboxes: every
    /// row loses the messages at or below it, a row that has none left
    /// goes, and the cursor follows its row by key.
    pub fn remove_messages_from_mailboxes(&mut self, messages: Vec<Message>)
        ensures
            final(self).messages == old(self).messages,
            final(self).active_pane == old(self).active_pane,
            final(self).active_states == old(self).active_states,
            final(self).mailboxes.items() == pruned(old(self).mailboxes.items(), messages@),
            final(self).mailboxes.cursor() == kept_cursor(
                keys_of(old(self).mailboxes.items()),
                old(self).mailboxes.cursor(),
                keys_of(final(self).mailboxes.items()),
            ),
    {
        let rows = prune_rows(self.mailboxes.get_items(), &messages);
        self.mailboxes.replace_items(rows);
    }

    /// Puts the messages that pass `action` into `new_state`, in the lists
    /// of the program, and returns the request that does the same in the
    /// store.
    fn change_states(&mut self, action: MessageFilter, new_state: State) -> (request: Request)
        ensures
            after_removal(
                *old(self),
                *final(self),
                matching(
                    restated_all(old(self).messages.items(), action@, new_state),
                    old(self).display_filter(),
                    true,
                ),
                matching(
                    restated_all(old(self).messages.items(), action@, new_state),
                    old(self).display_filter(),
                    false,
                ),
            ),
            request matches Request::ChangeMessageStates { filter, new_state: asked, refresh },
            request->ChangeMessageStates_filter@ == action@,
            request->ChangeMessageStates_new_state == new_state,
            request->ChangeMessageStates_refresh == (old(self).display_filter() != final(self).display_filter()),
    {
        let display = self.get_display_filter();
        let changed = restate_messages(self.messages.get_items(), &action, new_state);
        let (remaining, removed) = partition_messages(changed, &display);
        self.messages.replace_items(remaining);
        self.remove_messages_from_mailboxes(removed);
        let refresh = !display.same(&self.get_display_filter());
        Request::ChangeMessageStates { filter: action, new_state, refresh }
    }

    /// Puts the selected messages, or else the message under the cursor,
    /// into `new_state`. The lists change at once: a message that no longer
    /// passes the display filter leaves the list and the counts of the
    /// tree. The request that is returned does the same in the store; it
    /// asks for a refresh exactly if the display filter has changed, that
    /// is if the mailbox under the cursor of the tree is gone.
    pub fn set_selected_message_states(&mut self, new_state: State) -> (request: Request)
        ensures
            after_removal(
                *old(self),
                *final(self),
                matching(
                    restated_all(old(self).messages.items(), old(self).action_filter(), new_state),
                    old(self).display_filter(),
                    true,
                ),
                matching(
                    restated_all(old(self).messages.items(), old(self).action_filter(), new_state),
                    old(self).display_filter(),
                    false,
                ),
            ),
            request matches Request::ChangeMessageStates { filter, new_state: asked, refresh },
            request->ChangeMessageStates_filter@ == old(self).action_filter(),
            request->ChangeMessageStates_new_state == new_state,
            request->ChangeMessageStates_refresh == (old(self).display_filter() != final(self).display_filter()),
    {
        let action = self.get_action_filter();
        self.change_states(action, new_state)
    }

    /// Puts the messages that are shown in `mailbox` and below it into
    /// `new_state`, as `set_selected_message_states` does for the selected
    /// messages.
    pub fn set_mailbox_message_state(&mut self, mailbox: Mailbox, new_state: State) -> (request:
        Request)
        ensures
            ({
                let action = FilterView {
                    ids: None,
                    mailbox: Some(mailbox@),
                    states: Some(old(self).active_states.states()),
                };
                &&& after_removal(
                    *old(self),
                    *final(self),
                    matching(
                        restated_all(old(self).messages.items(), action, new_state),
                        old(self).display_filter(),
                        true,
                    ),
                    matching(
                        restated_all(old(self).messages.items(), action, new_state),
                        old(self).display_filter(),
                        false,
                    ),
                )
                &&& request matches Request::ChangeMessageStates { filter, new_state: asked, refresh }
                &&& request->ChangeMessageStates_filter@ == action
                &&& request->ChangeMessageStates_new_state == new_state
                &&& request->ChangeMessageStates_refresh == (old(self).display_filter() != final(self).display_filter())
            }),
    {
        let action = MessageFilter::new().with_mailbox(mailbox).with_states(
            self.get_active_states(),
        );
        self.change_states(action, new_state)
    }

    /// Deletes the selected messages, or else the message under the cursor.
    /// The lists change at once: the messages leave the list and the counts
    /// of the tree. The request that is returned does the same in the
    /// store; it asks for a refresh exactly if the display filter has
    /// changed.
    pub fn delete_selected_messages(&mut self) -> (request: Request)
        ensures
            after_removal(
                *old(self),
                *final(self),
                matching(old(self).messages.items(), old(self).action_filter(), false),
                matching(old(self).messages.items(), old(self).action_filter(), true),
            ),
            request matches Request::DeleteMessages { filter, refresh },
            request->DeleteMessages_filter@ == old(self).action_filter(),
            request->DeleteMessages_refresh == (old(self).display_filter() != final(self).display_filter()),
    {
        let filter = self.get_action_filter();
        let display = self.get_display_filter();
        let items = clone_messages(self.messages.get_items());
        let (deleted, remaining) = partition_messages(items, &filter);
        self.messages.replace_items(remaining);
        self.remove_messages_from_mailboxes(deleted);
        let refresh = !display.same(&self.get_display_filter());
        Request::DeleteMessages { filter, refresh }
    }

    /// The position of the row of `mailbox` in the tree of mailboxes.
    fn find_mailbox(&self, mailbox: &Mailbox) -> (r: Option<usize>)
        ensures
            r == row_position(self.mailboxes.items(), mailbox@, 0),
    {
        let rows = self.mailboxes.get_items();
        let mut i: usize = 0;
        while i < rows.len()
            invariant
                i <= rows.len(),
                rows@ == self.mailboxes.items(),
                row_position(rows@, mailbox@, 0) == row_position(rows@, mailbox@, i as int),
            decreases rows.len() - i,
        {
            if rows[i].mailbox.same(mailbox) {
                return Some(i);
            }
            i += 1;
        }
        None
    }

    /// Takes in an answer of the worker, and returns the requests that
    /// follow from it.
    ///
    /// Messages replace the list of messages. Mailboxes replace the tree,
    /// built anew from them; where that changes the display filter, the
    /// messages are asked for anew. A change that is done and asks for a
    /// refresh has the mailboxes and the messages asked for anew. The first
    /// load replaces both lists and puts the cursor of the tree on the
    /// initial mailbox, where it has a row.
    pub fn handle_worker_response(&mut self, response: Response) -> (requests: Vec<Request>)
        ensures
            response_done(*old(self), response, *final(self), requests@),
    {
        let mut requests: Vec<Request> = Vec::new();
        match response {
            Response::LoadMessages(messages) => {
                self.messages.replace_items(messages);
            },
            Response::LoadMailboxes(mailboxes) => {
                let display = self.get_display_filter();
                self.mailboxes.replace_items(build_mailbox_list(mailboxes));
                if !display.same(&self.get_display_filter()) {
                    // The mailbox under the cursor is another one now.
                    requests.push(self.update_messages());
                }
            },
            Response::Mutated { refresh } => {
                if refresh {
                    requests.push(self.update_mailboxes());
                    requests.push(self.update_messages());
                }
            },
            Response::InitialLoad { mailboxes, messages, initial_mailbox } => {
                self.mailboxes.replace_items(build_mailbox_list(mailboxes));
                if let Some(initial_mailbox) = initial_mailbox {
                    let position = self.find_mailbox(&initial_mailbox);
                    self.mailboxes.set_cursor(position);
                }
                self.messages.replace_items(messages);
            },
        }
        requests
    }
}

impl App {
    /// Takes in the answers of the worker, first to last, as
    /// `handle_worker_response` says for each, and returns the requests
    /// that follow from them, in order.
    pub fn handle_worker_responses(&mut self, responses: Vec<Response>) -> (requests: Vec<Request>)
        ensures
            exists|states: Seq<App>, parts: Seq<Seq<Request>>|
                {
                    &&& #[trigger] responses_done(responses@, states, parts)
                    &&& states[0] == *old(self)
                    &&& states[responses@.len() as int] == *final(self)
                    &&& requests@ == all_requests(parts)
                },
    {
        let n = responses.len();
        // The answers are taken from the end of a list, so the list is
        // turned round first.
        let mut rest = responses;
        let mut reversed: Vec<Response> = Vec::new();
        while rest.len() > 0
            invariant
                rest@.len() <= n,
                n == responses@.len(),
                rest@ == responses@.take(rest@.len() as int),
                reversed@ == responses@.skip(rest@.len() as int).reverse(),
            decreases rest.len(),
        {
            match rest.pop() {
                Some(response) => {
                    reversed.push(response);
                },
                None => {},
            }
        }
        let mut requests: Vec<Request> = Vec::new();
        let ghost mut states: Seq<App> = seq![*self];
        let ghost mut parts: Seq<Seq<Request>> = Seq::empty();
        let mut k: usize = 0;
        while reversed.len() > 0
            invariant
                k <= n,
                n == responses@.len(),
                reversed@ == responses@.reverse().take(n - k),
                states.len() == k + 1,
                parts.len() == k,
                states[0] == *old(self),
                states[k as int] == *self,
                requests@ == all_requests(parts),
                forall|i: int|
                    0 <= i < k ==> response_done(
                        #[trigger] states[i],
                        responses@[i],
                        states[i + 1],
                        parts[i],
                    ),
            decreases reversed.len(),
        {
            match reversed.pop() {
                Some(response) => {
                    let mut more = self.handle_worker_response(response);
                    proof {
                        let old_parts = parts;
                        states = states.push(*self);
                        parts = parts.push(more@);
                        assert(parts.drop_last() =~= old_parts);
                    }
                    requests.append(&mut more);
                    k += 1;
                },
                None => {},
            }
        }
        proof {
            assert(responses_done(responses@, states, parts));
        }
        requests
    }
}

} // verus!
