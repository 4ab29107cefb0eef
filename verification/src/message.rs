//! Messages, their lifecycle state, and the shapes in which they enter and
//! leave the store.

use vstd::prelude::*;
use vstd::std_specs::convert::{FromSpecImpl, TryFromSpecImpl};
use crate::mailbox::Mailbox;
use crate::text::same_text;

verus! {

/// The lifecycle state of a message.
#[derive(Clone, Copy, Debug, PartialEq, Eq, Hash, Structural)]
pub enum State {
    Unread,
    Read,
    Archived,
}

/// An integer or a word that names no state.
#[derive(Clone, Copy, Debug, PartialEq, Eq, Structural)]
pub struct InvalidState;

/// The integer under which a state is stored.
pub open spec fn state_code(state: State) -> u32 {
    match state {
        State::Unread => 0,
        State::Read => 1,
        State::Archived => 2,
    }
}

/// The word under which a state is written.
pub open spec fn state_word(state: State) -> Seq<char> {
    match state {
        State::Unread => "unread"@,
        State::Read => "read"@,
        State::Archived => "archived"@,
    }
}

/// The three words differ from one another.
pub proof fn lemma_state_words_differ()
    ensures
        forall|a: State, b: State| state_word(a) == state_word(b) ==> a == b,
        forall|a: State| state_word(a).len() > 0 && !state_word(a).contains(','),
{
    reveal_strlit("unread");
    reveal_strlit("read");
    reveal_strlit("archived");
    assert("unread"@.len() == 6 && "read"@.len() == 4 && "archived"@.len() == 8);
    assert forall|a: State| state_word(a).len() > 0 && !state_word(a).contains(',') by {
        let w = state_word(a);
        if w.contains(',') {
            let i = choose|i: int| 0 <= i < w.len() && w[i] == ',';
            assert(w[i] == ',');
        }
    }
}

impl State {
    /// The integer under which this state is stored: 0, 1 or 2.
    pub fn code(self) -> (c: u32)
        ensures
            c == state_code(self),
    {
        match self {
            State::Unread => 0,
            State::Read => 1,
            State::Archived => 2,
        }
    }

    /// The state stored under `code`; an error for any integer above 2.
    pub fn from_code(code: u32) -> (r: Result<State, InvalidState>)
        ensures
            r == state_of_code(code),
            match r {
                Ok(s) => state_code(s) == code,
                Err(_) => code > 2,
            },
    {
        if code == 0 {
            Ok(State::Unread)
        } else if code == 1 {
            Ok(State::Read)
        } else if code == 2 {
            Ok(State::Archived)
        } else {
            Err(InvalidState)
        }
    }

    /// The word for this state: `unread`, `read` or `archived`.
    pub fn as_str(self) -> (s: &'static str)
        ensures
            s@ == state_word(self),
    {
        match self {
            State::Unread => "unread",
            State::Read => "read",
            State::Archived => "archived",
        }
    }

    /// The state that `word` names; an error for any other string.
    pub fn from_word(word: &str) -> (r: Result<State, InvalidState>)
        ensures
            match r {
                Ok(s) => state_word(s) == word@,
                Err(_) => forall|s: State| state_word(s) != word@,
            },
    {
        if same_text(word, "unread") {
            Ok(State::Unread)
        } else if same_text(word, "read") {
            Ok(State::Read)
        } else if same_text(word, "archived") {
            Ok(State::Archived)
        } else {
            Err(InvalidState)
        }
    }
}

/// The state stored under `code`, if there is one.
pub open spec fn state_of_code(code: u32) -> Result<State, InvalidState> {
    if code == 0 {
        Ok(State::Unread)
    } else if code == 1 {
        Ok(State::Read)
    } else if code == 2 {
        Ok(State::Archived)
    } else {
        Err(InvalidState)
    }
}

impl TryFrom<u32> for State {
    type Error = InvalidState;

    /// The state stored under `value`; an error for any integer above 2.
    fn try_from(value: u32) -> (r: Result<State, InvalidState>)
        ensures
            r == state_of_code(value),
            match r {
                Ok(s) => state_code(s) == value,
                Err(_) => value > 2,
            },
    {
        State::from_code(value)
    }
}

impl TryFromSpecImpl<u32> for State {
    open spec fn obeys_try_from_spec() -> bool {
        true
    }

    open spec fn try_from_spec(v: u32) -> Result<Self, InvalidState> {
        state_of_code(v)
    }
}

impl From<State> for u32 {
    /// The integer under which `value` is stored: 0, 1 or 2.
    fn from(value: State) -> (c: u32)
        ensures
            c == state_code(value),
    {
        value.code()
    }
}

impl FromSpecImpl<State> for u32 {
    open spec fn obeys_from_spec() -> bool {
        true
    }

    open spec fn from_spec(v: State) -> u32 {
        state_code(v)
    }
}

impl std::str::FromStr for State {
    type Err = InvalidState;

    /// The state that `word` names; an error for any other string.
    fn from_str(word: &str) -> (r: Result<State, InvalidState>)
        ensures
            match r {
                Ok(s) => state_word(s) == word@,
                Err(_) => forall|s: State| state_word(s) != word@,
            },
    {
        State::from_word(word)
    }
}

/// A stored message as a mathematical value.
pub struct MessageView {
    pub id: u32,
    pub timestamp: i64,
    pub mailbox: Seq<char>,
    pub content: Seq<char>,
    pub state: State,
}

/// A stored message. The store assigns `id`, which grows with every insert,
/// and `timestamp`, the time of the insert in seconds since the epoch, UTC.
#[derive(Debug, PartialEq, Eq)]
pub struct Message {
    pub id: u32,
    pub timestamp: i64,
    pub mailbox: Mailbox,
    pub content: String,
    pub state: State,
}

impl View for Message {
    type V = MessageView;

    open spec fn view(&self) -> MessageView {
        MessageView {
            id: self.id,
            timestamp: self.timestamp,
            mailbox: self.mailbox@,
            content: self.content@,
            state: self.state,
        }
    }
}

impl Clone for Message {
    fn clone(&self) -> (r: Self)
        ensures
            r == *self,
    {
        Message {
            id: self.id,
            timestamp: self.timestamp,
            mailbox: self.mailbox.clone(),
            content: self.content.clone(),
            state: self.state,
        }
    }
}

impl Message {
    /// This message in another state.
    pub fn with_state(self, state: State) -> (r: Message)
        ensures
            r == (Message { state, ..self }),
    {
        Message { state, ..self }
    }
}

/// A message that is about to be stored.
#[derive(Debug, PartialEq, Eq)]
pub struct NewMessage {
    pub mailbox: Mailbox,
    pub content: String,
    pub state: Option<State>,
}

/// A message whose content is empty.
#[derive(Clone, Copy, Debug, PartialEq, Eq, Structural)]
pub struct EmptyContent;

impl NewMessage {
    /// The state in which this message is stored: the one it names, or
    /// unread.
    pub open spec fn initial_state(&self) -> State {
        match self.state {
            Some(s) => s,
            None => State::Unread,
        }
    }
}

impl Clone for NewMessage {
    fn clone(&self) -> (r: Self)
        ensures
            r == *self,
    {
        NewMessage {
            mailbox: self.mailbox.clone(),
            content: self.content.clone(),
            state: self.state,
        }
    }
}

/// Refuses a message without content.
pub fn validate_message(message: &NewMessage) -> (r: Result<(), EmptyContent>)
    ensures
        r is Err <==> message.content@.len() == 0,
{
    if message.content.as_str().is_empty() {
        Err(EmptyContent)
    } else {
        Ok(())
    }
}

/// Refuses a batch in which some message has no content.
pub fn validate_messages(messages: &Vec<NewMessage>) -> (r: Result<(), EmptyContent>)
    ensures
        r is Err <==> exists|i: int| 0 <= i < messages@.len() && (#[trigger] messages@[i]).content@.len() == 0,
{
    let mut i: usize = 0;
    while i < messages.len()
        invariant
            i <= messages.len(),
            forall|k: int| 0 <= k < i ==> (#[trigger] messages@[k]).content@.len() != 0,
        decreases messages.len() - i,
    {
        if validate_message(&messages[i]).is_err() {
            return Err(EmptyContent);
        }
        i += 1;
    }
    Ok(())
}

/// The number of messages filed directly under one mailbox.
#[derive(Debug, PartialEq, Eq)]
pub struct MailboxInfo {
    pub name: Mailbox,
    pub message_count: usize,
}

impl Clone for MailboxInfo {
    fn clone(&self) -> (r: Self)
        ensures
            r == *self,
    {
        MailboxInfo { name: self.name.clone(), message_count: self.message_count }
    }
}

} // verus!
