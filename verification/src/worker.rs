//! The decisions of the background worker of the interactive program.
//!
//! The worker takes requests, asks the store, and answers. What it asks and
//! what it answers is decided here; the waiting is done by whoever owns the
//! store. Every request becomes a task when it starts and is finished when
//! the store has answered. Tasks may finish in any order: an answer to a
//! load is passed on only while no later load of the same kind has started.

use vstd::prelude::*;
use crate::filter::{FilterView, MessageFilter};
use crate::mailbox::Mailbox;
use crate::message::{MailboxInfo, Message, State};
use crate::monotonic_counter::{Id, MonotonicCounter, successor};

verus! {

/// What the interactive program asks of the worker.
#[derive(Debug)]
pub enum Request {
    /// Load the mailboxes that pass `filter` and, at the same time, the
    /// messages that pass it within `initial_mailbox`.
    InitialLoad { filter: MessageFilter, initial_mailbox: Option<Mailbox> },
    /// Load the messages that pass the filter.
    LoadMessages(MessageFilter),
    /// Load the mailboxes of the messages that pass the filter.
    LoadMailboxes(MessageFilter),
    /// Put the messages that pass `filter` into `new_state`.
    ChangeMessageStates { filter: MessageFilter, new_state: State, refresh: bool },
    /// Delete the messages that pass `filter`.
    DeleteMessages { filter: MessageFilter, refresh: bool },
}

/// What the worker answers.
#[derive(Debug)]
pub enum Response {
    /// The answer to `Request::InitialLoad`.
    InitialLoad { mailboxes: Vec<MailboxInfo>, messages: Vec<Message>, initial_mailbox: Option<Mailbox> },
    /// The messages of the latest `Request::LoadMessages`.
    LoadMessages(Vec<Message>),
    /// The mailboxes of the latest `Request::LoadMailboxes`.
    LoadMailboxes(Vec<MailboxInfo>),
    /// A change or a deletion is done. With `refresh` the lists of the
    /// program are to be loaded anew.
    Mutated { refresh: bool },
}

/// A request that has started: what to ask of the store, and what is needed
/// to answer once the store has.
#[derive(Debug)]
pub enum Task {
    /// Ask for the mailboxes that pass `mailbox_filter` and for the messages
    /// that pass `message_filter`, both at once.
    InitialLoad { mailbox_filter: MessageFilter, message_filter: MessageFilter, initial_mailbox: Option<Mailbox> },
    /// Ask for the messages that pass `filter`.
    LoadMessages { filter: MessageFilter, id: Id },
    /// Ask for the mailboxes of the messages that pass `filter`.
    LoadMailboxes { filter: MessageFilter, id: Id },
    /// Ask to put the messages that pass `filter` into `new_state`.
    ChangeMessageStates { filter: MessageFilter, new_state: State, refresh: bool },
    /// Ask to delete the messages that pass `filter`.
    DeleteMessages { filter: MessageFilter, refresh: bool },
}

/// The state of the worker: one counter for the loads of messages, one for
/// the loads of mailboxes, and the number of tasks that have started and
/// not finished.
#[derive(Debug)]
pub struct Worker {
    message_counter: MonotonicCounter,
    mailbox_counter: MonotonicCounter,
    pending_requests: usize,
}

/// The number that follows `n` among the numbers of a machine word.
pub open spec fn count_up(n: usize) -> usize {
    if n == usize::MAX {
        0
    } else {
        (n + 1) as usize
    }
}

/// The number before `n` among the numbers of a machine word.
pub open spec fn count_down(n: usize) -> usize {
    if n == 0 {
        usize::MAX
    } else {
        (n - 1) as usize
    }
}

impl Worker {
    /// The id of the latest load of messages.
    pub closed spec fn latest_messages(&self) -> u64 {
        self.message_counter@
    }

    /// The id of the latest load of mailboxes.
    pub closed spec fn latest_mailboxes(&self) -> u64 {
        self.mailbox_counter@
    }

    /// The number of tasks that have started and not finished.
    pub closed spec fn pending(&self) -> usize {
        self.pending_requests
    }

    /// A worker that has started nothing.
    pub fn new() -> (worker: Self)
        ensures
            worker.pending() == 0,
            worker.latest_messages() == 0,
            worker.latest_mailboxes() == 0,
    {
        Worker {
            message_counter: MonotonicCounter::new(),
            mailbox_counter: MonotonicCounter::new(),
            pending_requests: 0,
        }
    }

    /// The number of tasks that have started and not finished. The program
    /// shows that it is loading while this is not 0.
    pub fn pending_requests(&self) -> (n: usize)
        ensures
            n == self.pending(),
    {
        self.pending_requests
    }

    /// Starts the task of a request: one more task is pending, and a load
    /// of messages or of mailboxes takes the next id of its kind.
    pub fn start(&mut self, request: Request) -> (task: Task)
        ensures
            final(self).pending() == count_up(old(self).pending()),
            match request {
                Request::InitialLoad { filter, initial_mailbox } => {
                    &&& task matches Task::InitialLoad {
                        mailbox_filter,
                        message_filter,
                        initial_mailbox: passed,
                    }
                    &&& mailbox_filter@ == filter@
                    &&& message_filter@ == match initial_mailbox {
                        Some(m) => FilterView { mailbox: Some(m@), ..filter@ },
                        None => filter@,
                    }
                    &&& passed == initial_mailbox
                    &&& final(self).latest_messages() == old(self).latest_messages()
                    &&& final(self).latest_mailboxes() == old(self).latest_mailboxes()
                },
                Request::LoadMessages(filter) => {
                    &&& task matches Task::LoadMessages { filter: asked, id }
                    &&& asked == filter
                    &&& id@ == final(self).latest_messages()
                    &&& final(self).latest_messages() == successor(old(self).latest_messages())
                    &&& final(self).latest_mailboxes() == old(self).latest_mailboxes()
                },
                Request::LoadMailboxes(filter) => {
                    &&& task matches Task::LoadMailboxes { filter: asked, id }
                    &&& asked == filter
                    &&& id@ == final(self).latest_mailboxes()
                    &&& final(self).latest_mailboxes() == successor(old(self).latest_mailboxes())
                    &&& final(self).latest_messages() == old(self).latest_messages()
                },
                Request::ChangeMessageStates { filter, new_state, refresh } => {
                    &&& task == Task::ChangeMessageStates { filter, new_state, refresh }
                    &&& final(self).latest_messages() == old(self).latest_messages()
                    &&& final(self).latest_mailboxes() == old(self).latest_mailboxes()
                },
                Request::DeleteMessages { filter, refresh } => {
                    &&& task == Task::DeleteMessages { filter, refresh }
                    &&& final(self).latest_messages() == old(self).latest_messages()
                    &&& final(self).latest_mailboxes() == old(self).latest_mailboxes()
                },
            },
    {
        self.pending_requests = if self.pending_requests == usize::MAX {
            0
        } else {
            self.pending_requests + 1
        };
        match request {
            Request::InitialLoad { filter, initial_mailbox } => {
                let mailbox_filter = filter.clone();
                let for_messages = match &initial_mailbox {
                    Some(m) => Some(m.clone()),
                    None => None,
                };
                let message_filter = filter.with_mailbox_option(for_messages);
                Task::InitialLoad { mailbox_filter, message_filter, initial_mailbox }
            },
            Request::LoadMessages(filter) => {
                let id = self.message_counter.next();
                Task::LoadMessages { filter, id }
            },
            Request::LoadMailboxes(filter) => {
                let id = self.mailbox_counter.next();
                Task::LoadMailboxes { filter, id }
            },
            Request::ChangeMessageStates { filter, new_state, refresh } => {
                Task::ChangeMessageStates { filter, new_state, refresh }
            },
            Request::DeleteMessages { filter, refresh } => Task::DeleteMessages { filter, refresh },
        }
    }

    /// Finishes a load of messages that took the id `id`: one task less is
    /// pending, and the messages are passed on exactly if no later load of
    /// messages has started.
    pub fn finish_load_messages(&mut self, id: Id, messages: Vec<Message>) -> (response: Option<
        Response,
    >)
        ensures
            final(self).pending() == count_down(old(self).pending()),
            final(self).latest_messages() == old(self).latest_messages(),
            final(self).latest_mailboxes() == old(self).latest_mailboxes(),
            response == (if id@ == old(self).latest_messages() {
                Some(Response::LoadMessages(messages))
            } else {
                None
            }),
    {
        self.task_done();
        if self.message_counter.is_last(id) {
            Some(Response::LoadMessages(messages))
        } else {
            None
        }
    }

    /// Finishes a load of mailboxes that took the id `id`: one task less is
    /// pending, and the mailboxes are passed on exactly if no later load of
    /// mailboxes has started.
    pub fn finish_load_mailboxes(&mut self, id: Id, mailboxes: Vec<MailboxInfo>) -> (response:
        Option<Response>)
        ensures
            final(self).pending() == count_down(old(self).pending()),
            final(self).latest_messages() == old(self).latest_messages(),
            final(self).latest_mailboxes() == old(self).latest_mailboxes(),
            response == (if id@ == old(self).latest_mailboxes() {
                Some(Response::LoadMailboxes(mailboxes))
            } else {
                None
            }),
    {
        self.task_done();
        if self.mailbox_counter.is_last(id) {
            Some(Response::LoadMailboxes(mailboxes))
        } else {
            None
        }
    }

    /// Finishes the first load: one task less is pending, and what was
    /// loaded is passed on.
    pub fn finish_initial_load(
        &mut self,
        mailboxes: Vec<MailboxInfo>,
        messages: Vec<Message>,
        initial_mailbox: Option<Mailbox>,
    ) -> (response: Response)
        ensures
            final(self).pending() == count_down(old(self).pending()),
            final(self).latest_messages() == old(self).latest_messages(),
            final(self).latest_mailboxes() == old(self).latest_mailboxes(),
            response == (Response::InitialLoad { mailboxes, messages, initial_mailbox }),
    {
        self.task_done();
        Response::InitialLoad { mailboxes, messages, initial_mailbox }
    }

    /// Finishes a change or a deletion: one task less is pending, and the
    /// answer asks for a refresh exactly if the request did.
    pub fn finish_mutation(&mut self, refresh: bool) -> (response: Response)
        ensures
            final(self).pending() == count_down(old(self).pending()),
            final(self).latest_messages() == old(self).latest_messages(),
            final(self).latest_mailboxes() == old(self).latest_mailboxes(),
            response == (Response::Mutated { refresh }),
    {
        self.task_done();
        Response::Mutated { refresh }
    }

    fn task_done(&mut self)
        ensures
            final(self).pending() == count_down(old(self).pending()),
            final(self).latest_messages() == old(self).latest_messages(),
            final(self).latest_mailboxes() == old(self).latest_mailboxes(),
    {
        self.pending_requests = if self.pending_requests == 0 {
            usize::MAX
        } else {
            self.pending_requests - 1
        };
    }
}

/// Of two loads of messages that start one after the other, the answer to
/// the first is dropped once the second has started, whatever else started
/// or finished meanwhile that was no load of messages; the answer to the
/// second is passed on while no third has started.
pub proof fn lemma_stale_load_dropped(before: Worker, after_first: Worker, after_second: Worker, first: Id, second: Id)
    requires
        after_first.latest_messages() == successor(before.latest_messages()),
        first@ == after_first.latest_messages(),
        after_second.latest_messages() == successor(after_first.latest_messages()),
        second@ == after_second.latest_messages(),
    ensures
        first@ != after_second.latest_messages(),
        second@ == after_second.latest_messages(),
{
}

} // verus!
