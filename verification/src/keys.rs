//! What the keys do in the interactive program.
//!
//! A key is first looked up among the keys that work everywhere. A key that
//! is not one of them goes to the active pane.

use vstd::prelude::*;
use linkify::{LinkFinder, LinkKind};
use crate::app::{App, Pane, after_removal};
use crate::message_list::{matching, restated_all};
use crate::filter::FilterView;
use crate::input_event::{InputEvent, Key};
use crate::mailbox::in_subtree;
use crate::message::State;
use crate::multiselect_list::{MultiselectList, SelectionMode};
use crate::navigable_list::{NavigableList, kept_cursor, keys_of, relative_cursor};
use crate::tree_list::{depths_of, next_sibling_cursor, parent_cursor, previous_sibling_cursor};
use crate::worker::Request;

verus! {

/// What a key that works everywhere asks for.
#[derive(Clone, Copy, Debug, PartialEq, Eq, Structural)]
pub enum GlobalCommand {
    /// Make the pane the active one.
    Activate(Pane),
    /// Make the other pane the active one.
    SwitchPane,
    /// Load the mailboxes and the messages anew.
    Reload,
    /// Show or hide the messages in the state.
    ToggleState(State),
}

/// What a key asks for in the pane of mailboxes.
#[derive(Clone, Copy, Debug, PartialEq, Eq, Structural)]
pub enum MailboxCommand {
    RemoveCursor,
    Next,
    NextSibling,
    Previous,
    PreviousSibling,
    Parent,
    /// Put the messages of the mailbox under the cursor into the state.
    SetState(State),
}

/// What a key asks for in the pane of messages.
#[derive(Clone, Copy, Debug, PartialEq, Eq, Structural)]
pub enum MessageCommand {
    /// Switch the mode on, or off where it is on.
    ToggleMode(SelectionMode),
    SelectAll,
    SelectNone,
    /// Move the cursor by so many messages.
    Move(i64),
    Last,
    First,
    RemoveCursor,
    ToggleSelected,
    /// Put the selected messages into the state.
    SetState(State),
    Delete,
    /// Open the link of the message under the cursor.
    Open,
}

/// The keys that work everywhere: `1` and `2` pick a pane, the left and the
/// right arrow switch panes, `R` reloads, and `u`, `r` and `a` with the
/// control key show or hide a state.
pub open spec fn global_command_of(event: InputEvent) -> Option<GlobalCommand> {
    match event.key {
        Key::Char(c) => if c == '1' {
            Some(GlobalCommand::Activate(Pane::Mailboxes))
        } else if c == '2' {
            Some(GlobalCommand::Activate(Pane::Messages))
        } else if c == 'R' {
            Some(GlobalCommand::Reload)
        } else if c == 'u' && event.control {
            Some(GlobalCommand::ToggleState(State::Unread))
        } else if c == 'r' && event.control {
            Some(GlobalCommand::ToggleState(State::Read))
        } else if c == 'a' && event.control {
            Some(GlobalCommand::ToggleState(State::Archived))
        } else {
            None
        },
        Key::Right | Key::Left => Some(GlobalCommand::SwitchPane),
        _ => None,
    }
}

/// The keys of the pane of mailboxes: escape takes the cursor away; down
/// or `j` and up or `k` move it, with the control key to the next or the
/// previous sibling; `K` moves it to the parent; `a`, `r` and `u` archive,
/// read and unread the mailbox under the cursor.
pub open spec fn mailbox_command_of(event: InputEvent) -> Option<MailboxCommand> {
    match event.key {
        Key::Esc => Some(MailboxCommand::RemoveCursor),
        Key::Down => Some(
            if event.control {
                MailboxCommand::NextSibling
            } else {
                MailboxCommand::Next
            },
        ),
        Key::Up => Some(
            if event.control {
                MailboxCommand::PreviousSibling
            } else {
                MailboxCommand::Previous
            },
        ),
        Key::Char(c) => if c == 'j' {
            Some(
                if event.control {
                    MailboxCommand::NextSibling
                } else {
                    MailboxCommand::Next
                },
            )
        } else if c == 'k' {
            Some(
                if event.control {
                    MailboxCommand::PreviousSibling
                } else {
                    MailboxCommand::Previous
                },
            )
        } else if c == 'K' {
            Some(MailboxCommand::Parent)
        } else if c == 'a' {
            Some(MailboxCommand::SetState(State::Archived))
        } else if c == 'r' {
            Some(MailboxCommand::SetState(State::Read))
        } else if c == 'u' {
            Some(MailboxCommand::SetState(State::Unread))
        } else {
            None
        },
        _ => None,
    }
}

/// The keys of the pane of messages: `s` and `d` with the control key
/// switch the select and the deselect mode; `g` and `G` select all and
/// none; down or `j` and up or `k` move the cursor by 1, with the control
/// key by 10; `J` and `K` move it to the last and the first message;
/// escape takes it away; the space bar selects or deselects the message
/// under it; `u`, `r` and `a` without the control key set the state; `x`
/// with the control key deletes; enter opens the link of the message.
pub open spec fn message_command_of(event: InputEvent, mode: SelectionMode) -> Option<
    MessageCommand,
> {
    let step: i64 = if event.control {
        10
    } else {
        1
    };
    match event.key {
        Key::Char(c) => if c == 's' && event.control {
            Some(
                MessageCommand::ToggleMode(
                    if mode == SelectionMode::Select {
                        SelectionMode::Off
                    } else {
                        SelectionMode::Select
                    },
                ),
            )
        } else if c == 'd' && event.control {
            Some(
                MessageCommand::ToggleMode(
                    if mode == SelectionMode::Deselect {
                        SelectionMode::Off
                    } else {
                        SelectionMode::Deselect
                    },
                ),
            )
        } else if c == 'g' {
            Some(MessageCommand::SelectAll)
        } else if c == 'G' {
            Some(MessageCommand::SelectNone)
        } else if c == 'j' {
            Some(MessageCommand::Move(step))
        } else if c == 'k' {
            Some(MessageCommand::Move((-step) as i64))
        } else if c == 'J' {
            Some(MessageCommand::Last)
        } else if c == 'K' {
            Some(MessageCommand::First)
        } else if c == ' ' {
            Some(MessageCommand::ToggleSelected)
        } else if c == 'u' && !event.control {
            Some(MessageCommand::SetState(State::Unread))
        } else if c == 'r' && !event.control {
            Some(MessageCommand::SetState(State::Read))
        } else if c == 'a' && !event.control {
            Some(MessageCommand::SetState(State::Archived))
        } else if c == 'x' && event.control {
            Some(MessageCommand::Delete)
        } else {
            None
        },
        Key::Down => Some(MessageCommand::Move(step)),
        Key::Up => Some(MessageCommand::Move((-step) as i64)),
        Key::Esc => Some(MessageCommand::RemoveCursor),
        Key::Enter => Some(MessageCommand::Open),
        _ => None,
    }
}

/// What the key asks for everywhere, if anything.
pub fn global_command(event: &InputEvent) -> (command: Option<GlobalCommand>)
    ensures
        command == global_command_of(*event),
{
    let control = event.control;
    match event.key {
        Key::Char(c) => {
            if c == '1' {
                Some(GlobalCommand::Activate(Pane::Mailboxes))
            } else if c == '2' {
                Some(GlobalCommand::Activate(Pane::Messages))
            } else if c == 'R' {
                Some(GlobalCommand::Reload)
            } else if c == 'u' && control {
                Some(GlobalCommand::ToggleState(State::Unread))
            } else if c == 'r' && control {
                Some(GlobalCommand::ToggleState(State::Read))
            } else if c == 'a' && control {
                Some(GlobalCommand::ToggleState(State::Archived))
            } else {
                None
            }
        },
        Key::Right | Key::Left => Some(GlobalCommand::SwitchPane),
        _ => None,
    }
}

/// What the key asks for in the pane of mailboxes, if anything.
pub fn mailbox_command(event: &InputEvent) -> (command: Option<MailboxCommand>)
    ensures
        command == mailbox_command_of(*event),
{
    let control = event.control;
    let down = if control {
        MailboxCommand::NextSibling
    } else {
        MailboxCommand::Next
    };
    let up = if control {
        MailboxCommand::PreviousSibling
    } else {
        MailboxCommand::Previous
    };
    match event.key {
        Key::Esc => Some(MailboxCommand::RemoveCursor),
        Key::Down => Some(down),
        Key::Up => Some(up),
        Key::Char(c) => {
            if c == 'j' {
                Some(down)
            } else if c == 'k' {
                Some(up)
            } else if c == 'K' {
                Some(MailboxCommand::Parent)
            } else if c == 'a' {
                Some(MailboxCommand::SetState(State::Archived))
            } else if c == 'r' {
                Some(MailboxCommand::SetState(State::Read))
            } else if c == 'u' {
                Some(MailboxCommand::SetState(State::Unread))
            } else {
                None
            }
        },
        _ => None,
    }
}

/// What the key asks for in the pane of messages, if anything.
pub fn message_command(event: &InputEvent, mode: SelectionMode) -> (command: Option<MessageCommand>)
    ensures
        command == message_command_of(*event, mode),
{
    let control = event.control;
    let step: i64 = if control {
        10
    } else {
        1
    };
    match event.key {
        Key::Char(c) => {
            if c == 's' && control {
                Some(
                    MessageCommand::ToggleMode(
                        if mode == SelectionMode::Select {
                            SelectionMode::Off
                        } else {
                            SelectionMode::Select
                        },
                    ),
                )
            } else if c == 'd' && control {
                Some(
                    MessageCommand::ToggleMode(
                        if mode == SelectionMode::Deselect {
                            SelectionMode::Off
                        } else {
                            SelectionMode::Deselect
                        },
                    ),
                )
            } else if c == 'g' {
                Some(MessageCommand::SelectAll)
            } else if c == 'G' {
                Some(MessageCommand::SelectNone)
            } else if c == 'j' {
                Some(MessageCommand::Move(step))
            } else if c == 'k' {
                Some(MessageCommand::Move(-step))
            } else if c == 'J' {
                Some(MessageCommand::Last)
            } else if c == 'K' {
                Some(MessageCommand::First)
            } else if c == ' ' {
                Some(MessageCommand::ToggleSelected)
            } else if c == 'u' && !control {
                Some(MessageCommand::SetState(State::Unread))
            } else if c == 'r' && !control {
                Some(MessageCommand::SetState(State::Read))
            } else if c == 'a' && !control {
                Some(MessageCommand::SetState(State::Archived))
            } else if c == 'x' && control {
                Some(MessageCommand::Delete)
            } else {
                None
            }
        },
        Key::Down => Some(MessageCommand::Move(step)),
        Key::Up => Some(MessageCommand::Move(-step)),
        Key::Esc => Some(MessageCommand::RemoveCursor),
        Key::Enter => Some(MessageCommand::Open),
        _ => None,
    }
}

/// What a key has done.
#[derive(Debug)]
pub struct KeyOutcome {
    /// Whether the key meant anything where it was pressed.
    pub handled: bool,
    /// The requests to send to the worker, in order.
    pub requests: Vec<Request>,
    /// The link to open in a browser, if the key asked for one.
    pub open_url: Option<String>,
}

/// The first link with a scheme that the `linkify` crate finds in a text.
pub uninterp spec fn first_link(text: Seq<char>) -> Option<Seq<char>>;

/// Finds the first URL in a text.
///
/// Trusted: `LinkFinder::new`, `kinds`, `links` and `Link::as_str` of the
/// `linkify` crate, for links of the kind URL. The claim is only that the
/// result is a function of the text, named `first_link`.
#[verifier::external_body]
fn find_first_url(text: &str) -> (url: Option<String>)
    ensures
        match url {
            Some(u) => first_link(text@) == Some(u@),
            None => first_link(text@) is None,
        },
{
    let mut finder = LinkFinder::new();
    finder.kinds(&[LinkKind::Url]);
    finder.links(text).next().map(|link| link.as_str().to_owned())
}

/// The two requests that load the mailboxes and the messages anew.
pub open spec fn is_reload(requests: Seq<Request>, app: App) -> bool {
    &&& requests.len() == 2
    &&& requests[0] matches Request::LoadMailboxes(f) && f@ == (FilterView {
        ids: None,
        mailbox: None,
        states: Some(app.active_states.states()),
    })
    &&& requests[1] matches Request::LoadMessages(f) && f@ == app.display_filter()
}

/// Where a command of the pane of mailboxes puts the cursor of the tree.
pub open spec fn mailbox_command_cursor(
    command: MailboxCommand,
    depths: Seq<usize>,
    cursor: Option<usize>,
) -> Option<usize> {
    match command {
        MailboxCommand::RemoveCursor => None,
        MailboxCommand::Next => relative_cursor(depths.len(), cursor, 1),
        MailboxCommand::NextSibling => next_sibling_cursor(depths, cursor),
        MailboxCommand::Previous => relative_cursor(depths.len(), cursor, -1),
        MailboxCommand::PreviousSibling => previous_sibling_cursor(depths, cursor),
        MailboxCommand::Parent => parent_cursor(depths, cursor),
        MailboxCommand::SetState(_) => cursor,
    }
}

/// The list of messages is what it was, but for the items.
pub open spec fn messages_filtered(before: App, after: App) -> bool {
    &&& after.messages.items() == matching(before.messages.items(), after.display_filter(), true)
    &&& after.messages.cursor() == kept_cursor(
        keys_of(before.messages.items()),
        before.messages.cursor(),
        keys_of(after.messages.items()),
    )
    &&& after.messages.mode() == before.messages.mode()
    &&& after.messages.selected() == before.messages.selected().intersect(
        keys_of(after.messages.items()).to_set(),
    )
}

/// What a command that works everywhere does to the program, and the
/// requests it gives.
pub open spec fn global_command_done(
    before: App,
    command: GlobalCommand,
    after: App,
    requests: Seq<Request>,
) -> bool {
    &&& after.mailboxes == before.mailboxes
    &&& after.messages == before.messages
    &&& match command {
        GlobalCommand::Activate(pane) => {
            &&& after.active_pane == pane
            &&& after.active_states == before.active_states
            &&& requests.len() == 0
        },
        GlobalCommand::SwitchPane => {
            &&& after.active_pane == (if before.active_pane == Pane::Mailboxes {
                Pane::Messages
            } else {
                Pane::Mailboxes
            })
            &&& after.active_states == before.active_states
            &&& requests.len() == 0
        },
        GlobalCommand::Reload => {
            &&& after.active_pane == before.active_pane
            &&& after.active_states == before.active_states
            &&& is_reload(requests, after)
        },
        GlobalCommand::ToggleState(state) => {
            &&& after.active_pane == before.active_pane
            &&& after.active_states == before.active_states.toggled(state)
            &&& is_reload(requests, after)
        },
    }
}

/// What a command of the pane of mailboxes does to the program, and the
/// requests it gives.
pub open spec fn mailbox_command_done(
    before: App,
    command: MailboxCommand,
    after: App,
    requests: Seq<Request>,
) -> bool {
    &&& after.active_pane == before.active_pane
    &&& after.active_states == before.active_states
    &&& match command {
        MailboxCommand::SetState(state) => match before.cursor_mailbox() {
            Some(mailbox) => {
                let action = FilterView {
                    ids: None,
                    mailbox: Some(mailbox),
                    states: Some(before.active_states.states()),
                };
                &&& after_removal(
                    before,
                    after,
                    matching(
                        restated_all(before.messages.items(), action, state),
                        before.display_filter(),
                        true,
                    ),
                    matching(
                        restated_all(before.messages.items(), action, state),
                        before.display_filter(),
                        false,
                    ),
                )
                &&& requests.len() == 1
                &&& requests[0] matches Request::ChangeMessageStates {
                    filter,
                    new_state,
                    refresh,
                }
                &&& requests[0]->ChangeMessageStates_filter@ == (FilterView {
                    ids: None,
                    mailbox: Some(mailbox),
                    states: Some(before.active_states.states()),
                })
                &&& requests[0]->ChangeMessageStates_new_state == state
                &&& requests[0]->ChangeMessageStates_refresh == (before.display_filter()
                    != after.display_filter())
            },
            None => after == before && requests.len() == 0,
        },
        _ => {
            &&& after.mailboxes.items() == before.mailboxes.items()
            &&& after.mailboxes.cursor() == mailbox_command_cursor(
                command,
                depths_of(before.mailboxes.items()),
                before.mailboxes.cursor(),
            )
            &&& match (before.cursor_mailbox(), after.cursor_mailbox()) {
                (None, None) => after.messages == before.messages
                    && requests.len() == 0,
                (None, Some(_)) => messages_filtered(before, after)
                    && requests.len() == 0,
                (Some(_), None) => after.messages == before.messages && is_reload(
                    requests,
                    after,
                ),
                (Some(old_mailbox), Some(new_mailbox)) => if old_mailbox == new_mailbox {
                    after.messages == before.messages && requests.len() == 0
                } else if in_subtree(old_mailbox, new_mailbox) {
                    messages_filtered(before, after) && requests.len() == 0
                } else {
                    after.messages == before.messages && is_reload(
                        requests,
                        after,
                    )
                },
            }
        },
    }
}

/// What a command of the pane of messages does to the program, the
/// requests it gives, and the link it asks to open.
pub open spec fn message_command_done(
    before: App,
    command: MessageCommand,
    after: App,
    requests: Seq<Request>,
    open_url: Option<String>,
) -> bool {
    &&& after.active_pane == before.active_pane
    &&& after.active_states == before.active_states
    &&& match command {
        MessageCommand::ToggleMode(mode) => {
            &&& after.mailboxes == before.mailboxes
            &&& after.messages.mode() == mode
            &&& after.messages.items() == before.messages.items()
            &&& after.messages.cursor() == before.messages.cursor()
            &&& after.messages.selected() == before.messages.selected()
            &&& requests.len() == 0 && open_url is None
        },
        MessageCommand::SelectAll => {
            &&& after.mailboxes == before.mailboxes
            &&& after.messages.mode() == before.messages.mode()
            &&& after.messages.items() == before.messages.items()
            &&& after.messages.cursor() == before.messages.cursor()
            &&& after.messages.selected() == keys_of(
                before.messages.items(),
            ).to_set()
            &&& requests.len() == 0 && open_url is None
        },
        MessageCommand::SelectNone => {
            &&& after.mailboxes == before.mailboxes
            &&& after.messages.mode() == before.messages.mode()
            &&& after.messages.items() == before.messages.items()
            &&& after.messages.cursor() == before.messages.cursor()
            &&& after.messages.selected() == Set::<u64>::empty()
            &&& requests.len() == 0 && open_url is None
        },
        MessageCommand::Move(_) | MessageCommand::Last | MessageCommand::First
        | MessageCommand::RemoveCursor => {
            let count = before.messages.items().len();
            let cursor = match command {
                MessageCommand::Move(change) => relative_cursor(
                    count,
                    before.messages.cursor(),
                    change as int,
                ),
                MessageCommand::Last => if count == 0 {
                    None
                } else {
                    Some((count - 1) as usize)
                },
                MessageCommand::First => if count == 0 {
                    None
                } else {
                    Some(0usize)
                },
                _ => None,
            };
            &&& after.mailboxes == before.mailboxes
            &&& after.messages.items() == before.messages.items()
            &&& after.messages.cursor() == cursor
            &&& MultiselectList::moved(before.messages, cursor, after.messages)
            &&& requests.len() == 0 && open_url is None
        },
        MessageCommand::ToggleSelected => {
            &&& after.mailboxes == before.mailboxes
            &&& after.messages.mode() == before.messages.mode()
            &&& after.messages.items() == before.messages.items()
            &&& after.messages.cursor() == before.messages.cursor()
            &&& after.messages.selected() == match before.messages.cursor() {
                Some(index) if index < before.messages.items().len() => {
                    let key = before.messages.items()[index as int].id as u64;
                    if before.messages.selected().contains(key) {
                        before.messages.selected().remove(key)
                    } else {
                        before.messages.selected().insert(key)
                    }
                },
                _ => before.messages.selected(),
            }
            &&& requests.len() == 0 && open_url is None
        },
        MessageCommand::SetState(state) => {
            &&& after_removal(
                before,
                after,
                matching(
                    restated_all(before.messages.items(), before.action_filter(), state),
                    before.display_filter(),
                    true,
                ),
                matching(
                    restated_all(before.messages.items(), before.action_filter(), state),
                    before.display_filter(),
                    false,
                ),
            )
            &&& requests.len() == 1
            &&& requests[0] matches Request::ChangeMessageStates {
                filter,
                new_state,
                refresh,
            }
            &&& requests[0]->ChangeMessageStates_filter@ == before.action_filter()
            &&& requests[0]->ChangeMessageStates_new_state == state
            &&& requests[0]->ChangeMessageStates_refresh == (before.display_filter() != after.display_filter())
            &&& open_url is None
        },
        MessageCommand::Delete => {
            &&& after_removal(
                before,
                after,
                matching(before.messages.items(), before.action_filter(), false),
                matching(before.messages.items(), before.action_filter(), true),
            )
            &&& requests.len() == 1
            &&& requests[0] matches Request::DeleteMessages { filter, refresh }
            &&& requests[0]->DeleteMessages_filter@ == before.action_filter()
            &&& requests[0]->DeleteMessages_refresh == (before.display_filter()
                != after.display_filter())
            &&& open_url is None
        },
        MessageCommand::Open => {
            &&& after == before
            &&& requests.len() == 0
            &&& match before.messages.cursor() {
                Some(index) if index < before.messages.items().len() => match first_link(
                    before.messages.items()[index as int].content@,
                ) {
                    Some(link) => open_url matches Some(url) && url@ == link,
                    None => open_url is None,
                },
                _ => open_url is None,
            }
        },
    }
}

impl App {
    /// Does what a key that works everywhere asks for.
    pub fn run_global_command(&mut self, command: GlobalCommand) -> (requests: Vec<Request>)
        ensures
            global_command_done(*old(self), command, *final(self), requests@),
    {
        let mut requests: Vec<Request> = Vec::new();
        match command {
            GlobalCommand::Activate(pane) => {
                self.activate_pane(pane);
            },
            GlobalCommand::SwitchPane => {
                let pane = match self.active_pane {
                    Pane::Mailboxes => Pane::Messages,
                    Pane::Messages => Pane::Mailboxes,
                };
                self.activate_pane(pane);
            },
            GlobalCommand::Reload => {
                requests.push(self.update_mailboxes());
                requests.push(self.update_messages());
            },
            GlobalCommand::ToggleState(state) => {
                requests = self.toggle_active_state(state);
            },
        }
        requests
    }

    /// Does what a key asks for in the pane of mailboxes.
    ///
    /// A state is set for the mailbox under the cursor as
    /// `set_mailbox_message_state` says; without a mailbox under the cursor
    /// nothing happens. Any other command moves the cursor of the tree.
    /// Where that leaves the mailbox under the cursor as it was, nothing
    /// else happens. Where the new mailbox lies at or below the old one, or
    /// there was none before, the messages in the list are filtered for it,
    /// without the store. Else the mailboxes and the messages are loaded
    /// anew.
    pub fn run_mailbox_command(&mut self, command: MailboxCommand) -> (requests: Vec<Request>)
        ensures
            mailbox_command_done(*old(self), command, *final(self), requests@),
    {
        let mut requests: Vec<Request> = Vec::new();
        let old_active_mailbox = match self.mailboxes.get_cursor_item() {
            Some(row) => Some(row.mailbox.clone()),
            None => None,
        };
        match command {
            MailboxCommand::RemoveCursor => {
                self.mailboxes.remove_cursor();
            },
            MailboxCommand::Next => {
                self.mailboxes.next();
            },
            MailboxCommand::NextSibling => {
                self.mailboxes.next_sibling();
            },
            MailboxCommand::Previous => {
                self.mailboxes.previous();
            },
            MailboxCommand::PreviousSibling => {
                self.mailboxes.previous_sibling();
            },
            MailboxCommand::Parent => {
                self.mailboxes.parent();
            },
            MailboxCommand::SetState(state) => {
                if let Some(active_mailbox) = old_active_mailbox {
                    requests.push(self.set_mailbox_message_state(active_mailbox, state));
                }
                return requests;
            },
        }
        let (unchanged, local_update) = match self.mailboxes.get_cursor_item() {
            Some(row) => match &old_active_mailbox {
                Some(before) => (before.same(&row.mailbox), before.is_ancestor_of(&row.mailbox)),
                None => (false, true),
            },
            None => (old_active_mailbox.is_none(), false),
        };
        if unchanged {
            return requests;
        }
        if local_update {
            // The messages of the new mailbox are among those in the list.
            self.filter_messages();
            return requests;
        }
        requests.push(self.update_mailboxes());
        requests.push(self.update_messages());
        requests
    }

    /// Does what a key asks for in the pane of messages.
    pub fn run_message_command(&mut self, command: MessageCommand) -> (outcome: KeyOutcome)
        ensures
            outcome.handled,
            message_command_done(
                *old(self),
                command,
                *final(self),
                outcome.requests@,
                outcome.open_url,
            ),
    {
        let mut requests: Vec<Request> = Vec::new();
        let mut open_url: Option<String> = None;
        match command {
            MessageCommand::ToggleMode(mode) => {
                self.messages.set_selection_mode(mode);
            },
            MessageCommand::SelectAll => {
                self.messages.set_all_selected(true);
            },
            MessageCommand::SelectNone => {
                self.messages.set_all_selected(false);
            },
            MessageCommand::Move(change) => {
                self.messages.move_cursor_relative(change);
            },
            MessageCommand::Last => {
                self.messages.last();
            },
            MessageCommand::First => {
                self.messages.first();
            },
            MessageCommand::RemoveCursor => {
                self.messages.remove_cursor();
            },
            MessageCommand::ToggleSelected => {
                self.messages.toggle_cursor_selected();
            },
            MessageCommand::SetState(state) => {
                requests.push(self.set_selected_message_states(state));
            },
            MessageCommand::Delete => {
                requests.push(self.delete_selected_messages());
            },
            MessageCommand::Open => {
                if let Some(message) = self.messages.get_cursor_item() {
                    open_url = find_first_url(message.content.as_str());
                }
            },
        }
        KeyOutcome { handled: true, requests, open_url }
    }
}

/// Handles a key that works everywhere. `handled` says whether the key was
/// one of them; if so, the command it stands for was run.
pub fn handle_global_key(app: &mut App, event: &InputEvent) -> (outcome: KeyOutcome)
    ensures
        outcome.open_url is None,
        match global_command_of(*event) {
            Some(command) => outcome.handled && global_command_done(
                *old(app),
                command,
                *final(app),
                outcome.requests@,
            ),
            None => !outcome.handled && *final(app) == *old(app) && outcome.requests@.len() == 0,
        },
{
    match global_command(event) {
        Some(command) => {
            let requests = app.run_global_command(command);
            KeyOutcome { handled: true, requests, open_url: None }
        },
        None => KeyOutcome { handled: false, requests: Vec::new(), open_url: None },
    }
}

/// Handles a key in the pane of mailboxes.
pub fn handle_mailbox_key(app: &mut App, event: &InputEvent) -> (outcome: KeyOutcome)
    ensures
        outcome.open_url is None,
        match mailbox_command_of(*event) {
            Some(command) => outcome.handled && mailbox_command_done(
                *old(app),
                command,
                *final(app),
                outcome.requests@,
            ),
            None => !outcome.handled && *final(app) == *old(app) && outcome.requests@.len() == 0,
        },
{
    match mailbox_command(event) {
        Some(command) => {
            let requests = app.run_mailbox_command(command);
            KeyOutcome { handled: true, requests, open_url: None }
        },
        None => KeyOutcome { handled: false, requests: Vec::new(), open_url: None },
    }
}

/// Handles a key in the pane of messages.
pub fn handle_message_key(app: &mut App, event: &InputEvent) -> (outcome: KeyOutcome)
    ensures
        match message_command_of(*event, old(app).messages.mode()) {
            Some(command) => outcome.handled && message_command_done(
                *old(app),
                command,
                *final(app),
                outcome.requests@,
                outcome.open_url,
            ),
            None => !outcome.handled && *final(app) == *old(app) && outcome.requests@.len() == 0
                && outcome.open_url is None,
        },
{
    match message_command(event, app.messages.get_selection_mode()) {
        Some(command) => app.run_message_command(command),
        None => KeyOutcome { handled: false, requests: Vec::new(), open_url: None },
    }
}

/// Handles a key in the active pane.
pub fn handle_pane_key(app: &mut App, event: &InputEvent) -> (outcome: KeyOutcome)
    ensures
        match old(app).active_pane {
            Pane::Mailboxes => outcome.open_url is None && match mailbox_command_of(*event) {
                Some(command) => outcome.handled && mailbox_command_done(
                    *old(app),
                    command,
                    *final(app),
                    outcome.requests@,
                ),
                None => !outcome.handled && *final(app) == *old(app) && outcome.requests@.len()
                    == 0,
            },
            Pane::Messages => match message_command_of(*event, old(app).messages.mode()) {
                Some(command) => outcome.handled && message_command_done(
                    *old(app),
                    command,
                    *final(app),
                    outcome.requests@,
                    outcome.open_url,
                ),
                None => !outcome.handled && *final(app) == *old(app) && outcome.requests@.len()
                    == 0 && outcome.open_url is None,
            },
        },
{
    match app.active_pane {
        Pane::Mailboxes => handle_mailbox_key(app, event),
        Pane::Messages => handle_message_key(app, event),
    }
}

} // verus!
