//! The configuration: where the messages are kept, and which mailboxes
//! have their messages put into another state, or dropped, on import.

use vstd::prelude::*;
use crate::mailbox::{Mailbox, ancestors};
use crate::message::{NewMessage, State};
use crate::text::{chars_of, same_chars, same_text};

verus! {

/// What happens to the messages of a mailbox on import.
#[derive(Clone, Copy, Debug, PartialEq, Eq, Structural)]
pub enum Override {
    /// They are stored as unread.
    Unread,
    /// They are stored as read.
    Read,
    /// They are stored as archived.
    Archived,
    /// They are dropped.
    Ignored,
}

/// Where the messages are kept.
#[derive(Debug, PartialEq, Eq)]
pub enum DatabaseProvider {
    /// In an embedded database in a file.
    Sqlite,
    /// On a server, with an optional token.
    Http { url: String, token: Option<String> },
}

/// Why the entries of a configuration file are no configuration.
#[derive(Clone, Copy, Debug, PartialEq, Eq, Structural)]
pub enum ConfigError {
    /// The provider is neither `sqlite` nor `http`.
    UnknownProvider,
    /// The provider `http` has no `url`.
    MissingUrl,
    /// The provider `sqlite` has a `url` or a `token`.
    UnexpectedField,
    /// An override is none of `unread`, `read`, `archived` and `ignored`.
    InvalidOverride,
}

/// The configuration.
#[derive(Debug)]
pub struct Config {
    overrides: Vec<(String, Override)>,
    pub database: DatabaseProvider,
}

/// The overrides as mathematical values.
pub open spec fn override_views(overrides: Seq<(String, Override)>) -> Seq<(Seq<char>, Override)> {
    overrides.map_values(|o: (String, Override)| (o.0@, o.1))
}

/// The override that the first entry for the mailbox `name` gives.
pub open spec fn lookup(overrides: Seq<(Seq<char>, Override)>, name: Seq<char>, from: int) -> Option<
    Override,
>
    decreases overrides.len() - from,
{
    if from < 0 || from >= overrides.len() {
        None
    } else if overrides[from].0 == name {
        Some(overrides[from].1)
    } else {
        lookup(overrides, name, from + 1)
    }
}

/// The override of the longest of the first `n` of `names` that has one.
pub open spec fn longest_override(
    overrides: Seq<(Seq<char>, Override)>,
    names: Seq<Seq<char>>,
    n: int,
) -> Option<Override>
    decreases n,
{
    if n <= 0 || n > names.len() {
        None
    } else {
        match lookup(overrides, names[n - 1], 0) {
            Some(o) => Some(o),
            None => longest_override(overrides, names, n - 1),
        }
    }
}

/// The override for a mailbox: that of the mailbox itself, or else that of
/// the nearest mailbox above it that has one.
pub open spec fn override_of(overrides: Seq<(Seq<char>, Override)>, mailbox: Seq<char>) -> Option<
    Override,
> {
    longest_override(overrides, ancestors(mailbox), ancestors(mailbox).len() as int)
}

/// The override that a word names.
pub open spec fn override_word(word: Seq<char>) -> Option<Override> {
    if word == "unread"@ {
        Some(Override::Unread)
    } else if word == "read"@ {
        Some(Override::Read)
    } else if word == "archived"@ {
        Some(Override::Archived)
    } else if word == "ignored"@ {
        Some(Override::Ignored)
    } else {
        None
    }
}

/// The first thing that is wrong with the entries of a configuration file,
/// if anything is: the provider is looked at first, then its `url` and
/// `token`, then the overrides.
pub open spec fn config_error(
    provider: Option<&str>,
    url: Option<String>,
    token: Option<String>,
    overrides: Seq<(String, String)>,
) -> Option<ConfigError> {
    let http = provider matches Some(p) && p@ == "http"@;
    if provider matches Some(p) && p@ != "sqlite"@ && p@ != "http"@ {
        Some(ConfigError::UnknownProvider)
    } else if http && url is None {
        Some(ConfigError::MissingUrl)
    } else if !http && (url is Some || token is Some) {
        Some(ConfigError::UnexpectedField)
    } else if exists|i: int| 0 <= i < overrides.len() && override_word((#[trigger] overrides[i]).1@) is None {
        Some(ConfigError::InvalidOverride)
    } else {
        None
    }
}

/// The override that a word names, if it names one.
pub fn parse_override(word: &str) -> (r: Option<Override>)
    ensures
        r == override_word(word@),
{
    if same_text(word, "unread") {
        Some(Override::Unread)
    } else if same_text(word, "read") {
        Some(Override::Read)
    } else if same_text(word, "archived") {
        Some(Override::Archived)
    } else if same_text(word, "ignored") {
        Some(Override::Ignored)
    } else {
        None
    }
}

impl Config {
    /// The overrides of the configuration, in the order in which they were
    /// given.
    pub closed spec fn overrides(&self) -> Seq<(Seq<char>, Override)> {
        override_views(self.overrides@)
    }

    /// Where the messages are kept.
    pub closed spec fn provider(&self) -> DatabaseProvider {
        self.database
    }

    /// Where the messages are kept.
    pub fn get_provider(&self) -> (p: &DatabaseProvider)
        ensures
            *p == self.provider(),
    {
        &self.database
    }

    /// The configuration with the given overrides and provider.
    pub fn new(overrides: Vec<(String, Override)>, database: DatabaseProvider) -> (config: Self)
        ensures
            config.overrides() == override_views(overrides@),
            config.provider() == database,
    {
        Config { overrides, database }
    }

    /// The configuration that the entries of a configuration file stand
    /// for. Without a provider the messages are kept in the embedded
    /// database. The provider `http` needs a `url`; the provider `sqlite`
    /// takes neither `url` nor `token`. The provider is checked first, then
    /// the overrides in their order.
    pub fn from_entries(
        provider: Option<&str>,
        url: Option<String>,
        token: Option<String>,
        overrides: &Vec<(String, String)>,
    ) -> (r: Result<Config, ConfigError>)
        ensures
            match config_error(provider, url, token, overrides@) {
                Some(e) => r == Err::<Config, ConfigError>(e),
                None => {
                    &&& r matches Ok(config)
                    &&& r->Ok_0.provider() == (if provider matches Some(p) && p@ == "http"@ {
                        DatabaseProvider::Http { url: url->Some_0, token }
                    } else {
                        DatabaseProvider::Sqlite
                    })
                    &&& r->Ok_0.overrides().len() == overrides@.len()
                    &&& forall|i: int|
                        0 <= i < overrides@.len() ==> {
                            &&& (#[trigger] r->Ok_0.overrides()[i]).0 == overrides@[i].0@
                            &&& override_word(overrides@[i].1@) == Some(r->Ok_0.overrides()[i].1)
                        }
                },
            },
    {
        proof {
            reveal_strlit("sqlite");
            reveal_strlit("http");
            assert("sqlite"@.len() == 6 && "http"@.len() == 4);
        }
        let http = match provider {
            None => false,
            Some(p) => if same_text(p, "sqlite") {
                false
            } else if same_text(p, "http") {
                true
            } else {
                return Err(ConfigError::UnknownProvider);
            },
        };
        let database = if http {
            match url {
                Some(url) => DatabaseProvider::Http { url, token },
                None => {
                    return Err(ConfigError::MissingUrl);
                },
            }
        } else {
            if url.is_some() || token.is_some() {
                return Err(ConfigError::UnexpectedField);
            }
            DatabaseProvider::Sqlite
        };
        let ghost invalid = exists|i: int|
            0 <= i < overrides@.len() && override_word((#[trigger] overrides@[i]).1@) is None;
        let mut parsed: Vec<(String, Override)> = Vec::new();
        let mut i: usize = 0;
        while i < overrides.len()
            invariant
                i <= overrides.len(),
                invalid == (exists|i: int|
                    0 <= i < overrides@.len() && override_word((#[trigger] overrides@[i]).1@)
                        is None),
                config_error(provider, url, token, overrides@) == (if invalid {
                    Some(ConfigError::InvalidOverride)
                } else {
                    None
                }),
                database == (if http {
                    DatabaseProvider::Http { url: url->Some_0, token }
                } else {
                    DatabaseProvider::Sqlite
                }),
                http == (provider matches Some(p) && p@ == "http"@),
                parsed@.len() == i,
                forall|k: int|
                    0 <= k < i ==> {
                        &&& (#[trigger] parsed@[k]).0@ == overrides@[k].0@
                        &&& override_word(overrides@[k].1@) == Some(parsed@[k].1)
                    },
            decreases overrides.len() - i,
        {
            match parse_override(overrides[i].1.as_str()) {
                Some(o) => {
                    parsed.push((overrides[i].0.clone(), o));
                },
                None => {
                    return Err(ConfigError::InvalidOverride);
                },
            }
            i += 1;
        }
        assert(!invalid) by {
            if invalid {
                let k = choose|k: int|
                    0 <= k < overrides@.len() && override_word((#[trigger] overrides@[k]).1@)
                        is None;
                assert(override_word(overrides@[k].1@) == Some(parsed@[k].1));
            }
        }
        let config = Config { overrides: parsed, database };
        Ok(config)
    }

    /// The override that the first entry for `name` gives.
    fn find(&self, name: &Vec<char>) -> (r: Option<Override>)
        ensures
            r == lookup(self.overrides(), name@, 0),
    {
        let mut i: usize = 0;
        while i < self.overrides.len()
            invariant
                i <= self.overrides.len(),
                lookup(self.overrides(), name@, 0) == lookup(self.overrides(), name@, i as int),
            decreases self.overrides.len() - i,
        {
            let key = chars_of(self.overrides[i].0.as_str());
            if same_chars(&key, name) {
                return Some(self.overrides[i].1);
            }
            i += 1;
        }
        None
    }

    /// The override for a mailbox, if there is one: that of the mailbox
    /// itself, or else that of the nearest mailbox above it that has one.
    pub fn get_override(&self, mailbox: &Mailbox) -> (r: Option<Override>)
        ensures
            r == override_of(self.overrides(), mailbox@),
    {
        let names = mailbox.iter_ancestors();
        let ghost all = ancestors(mailbox@);
        let mut n: usize = names.len();
        while n > 0
            invariant
                n <= names.len(),
                names@.len() == all.len(),
                forall|i: int| 0 <= i < names@.len() ==> (#[trigger] names@[i])@ == all[i],
                override_of(self.overrides(), mailbox@) == longest_override(
                    self.overrides(),
                    all,
                    n as int,
                ),
            decreases n,
        {
            let name = chars_of(names[n - 1].as_str());
            match self.find(&name) {
                Some(o) => {
                    return Some(o);
                },
                None => {},
            }
            n -= 1;
        }
        None
    }

    /// The message as it is imported: in the state that the override for
    /// its mailbox names, or in its own state where there is none; `None`
    /// where the override is to ignore it.
    pub fn apply_override(&self, message: NewMessage) -> (r: Option<NewMessage>)
        ensures
            r == overridden(self.overrides(), message),
    {
        let state = match self.get_override(&message.mailbox) {
            Some(Override::Unread) => Some(State::Unread),
            Some(Override::Read) => Some(State::Read),
            Some(Override::Archived) => Some(State::Archived),
            Some(Override::Ignored) => {
                // The message is dropped.
                return None;
            },
            None => message.state,
        };
        Some(NewMessage { mailbox: message.mailbox, content: message.content, state })
    }
}

/// The message as it is imported under the overrides, if it is imported.
pub open spec fn overridden(overrides: Seq<(Seq<char>, Override)>, message: NewMessage) -> Option<
    NewMessage,
> {
    match override_of(overrides, message.mailbox@) {
        Some(Override::Ignored) => None,
        Some(Override::Unread) => Some(NewMessage { state: Some(State::Unread), ..message }),
        Some(Override::Read) => Some(NewMessage { state: Some(State::Read), ..message }),
        Some(Override::Archived) => Some(NewMessage { state: Some(State::Archived), ..message }),
        None => Some(message),
    }
}

/// The messages as they are imported under the overrides: every message
/// that is not ignored, in its order.
pub open spec fn imported(overrides: Seq<(Seq<char>, Override)>, messages: Seq<NewMessage>) -> Seq<
    NewMessage,
>
    decreases messages.len(),
{
    if messages.len() == 0 {
        Seq::empty()
    } else {
        match overridden(overrides, messages.last()) {
            Some(m) => imported(overrides, messages.drop_last()).push(m),
            None => imported(overrides, messages.drop_last()),
        }
    }
}

/// The messages as they are imported: every message as `apply_override`
/// says, without those that are ignored; without a configuration, all as
/// they are.
pub fn import_messages(config: Option<&Config>, new_messages: Vec<NewMessage>) -> (r: Vec<NewMessage>)
    ensures
        r@ == match config {
            Some(c) => imported(c.overrides(), new_messages@),
            None => new_messages@,
        },
{
    let config = match config {
        Some(config) => config,
        None => {
            return new_messages;
        },
    };
    let mut r: Vec<NewMessage> = Vec::new();
    let mut i: usize = 0;
    while i < new_messages.len()
        invariant
            i <= new_messages.len(),
            r@ == imported(config.overrides(), new_messages@.take(i as int)),
        decreases new_messages.len() - i,
    {
        proof {
            let t = new_messages@.take(i + 1);
            assert(t.drop_last() =~= new_messages@.take(i as int));
        }
        match config.apply_override(new_messages[i].clone()) {
            Some(message) => {
                r.push(message);
            },
            None => {},
        }
        i += 1;
    }
    assert(new_messages@.take(new_messages.len() as int) =~= new_messages@);
    r
}

} // verus!
