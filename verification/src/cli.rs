//! The commands of the command line, and what each of them asks for.

use vstd::prelude::*;
use crate::filter::{FilterView, MessageFilter};
use crate::http_backend::Operation;
use crate::mailbox::Mailbox;
use crate::message::{NewMessage, State};
use crate::message_formatter::MessageFormatter;
use crate::time_text::TimestampFormat;

verus! {

/// The state of a message that is added.
#[derive(Clone, Copy, Debug, PartialEq, Eq, Structural)]
pub enum AddMessageState {
    Unread,
    Read,
    Archived,
}

/// The format of the messages that are imported.
#[derive(Clone, Copy, Debug, PartialEq, Eq, Structural)]
pub enum ImportMessageFormat {
    Json,
    Tsv,
}

/// The states of the messages that are viewed.
#[derive(Clone, Copy, Debug, PartialEq, Eq, Structural)]
pub enum ViewMessageState {
    Unread,
    Read,
    Archived,
    /// Unread and read.
    Unarchived,
    /// Every state.
    All,
}

/// What to do with the configuration file.
#[derive(Clone, Copy, Debug, PartialEq, Eq, Structural)]
pub enum ConfigSubcommand {
    /// Show where it lies.
    Locate,
    /// Open it in the editor.
    Edit,
}

/// A command of the command line.
#[derive(Debug)]
#[allow(inconsistent_fields)]
pub enum Command {
    /// Add a message to a mailbox.
    Add { mailbox: Mailbox, content: String, state: AddMessageState },
    /// Add the messages that the standard input holds.
    Import { format: ImportMessageFormat },
    /// View messages.
    View { mailbox: Option<Mailbox>, state: ViewMessageState, full_output: bool },
    /// Mark unread messages as read.
    Read { mailbox: Option<Mailbox> },
    /// Archive all read and unread messages.
    Archive { mailbox: Option<Mailbox> },
    /// Delete archived messages for good.
    Clear { mailbox: Option<Mailbox> },
    /// Open the interactive program.
    Tui { mailbox: Option<Mailbox>, state: ViewMessageState },
    /// Manage the configuration.
    Config { subcommand: ConfigSubcommand },
}

/// The command line as a whole.
#[derive(Debug)]
pub struct Cli {
    pub command: Command,
    /// Use colours even where the output is no terminal.
    pub color: bool,
    /// Use no colours even where the output is a terminal.
    pub no_color: bool,
    /// The format of the time; without one, times are written in words on
    /// a terminal and in local time elsewhere.
    pub timestamp_format: Option<TimestampFormat>,
}

/// What a command asks for.
#[derive(Debug)]
pub enum CommandPlan {
    /// Import the messages, and show what was stored.
    Import(Vec<NewMessage>),
    /// Read messages in the format from the standard input, import them,
    /// and show what was stored.
    ImportInput(ImportMessageFormat),
    /// Ask the operation of the store, and show what it returns.
    Run(Operation),
    /// Open the interactive program on the mailbox, with the states shown.
    Tui { mailbox: Option<Mailbox>, states: Vec<State> },
    /// Show where the configuration file lies.
    LocateConfig,
    /// Open the configuration file in the editor.
    EditConfig,
}

/// The states that a choice of states to view stands for.
pub open spec fn view_states(state: ViewMessageState) -> Seq<State> {
    match state {
        ViewMessageState::Unread => seq![State::Unread],
        ViewMessageState::Read => seq![State::Read],
        ViewMessageState::Archived => seq![State::Archived],
        ViewMessageState::Unarchived => seq![State::Unread, State::Read],
        ViewMessageState::All => seq![State::Unread, State::Read, State::Archived],
    }
}

/// The states that a choice of states to view stands for.
pub fn states_from_view_message_state(state: ViewMessageState) -> (states: Vec<State>)
    ensures
        states@ == view_states(state),
{
    let mut states: Vec<State> = Vec::new();
    match state {
        ViewMessageState::Unread => {
            states.push(State::Unread);
        },
        ViewMessageState::Read => {
            states.push(State::Read);
        },
        ViewMessageState::Archived => {
            states.push(State::Archived);
        },
        ViewMessageState::Unarchived => {
            states.push(State::Unread);
            states.push(State::Read);
        },
        ViewMessageState::All => {
            states.push(State::Unread);
            states.push(State::Read);
            states.push(State::Archived);
        },
    }
    states
}

/// The state that a message is added in.
pub fn state_from_add_message_state(state: AddMessageState) -> (r: State)
    ensures
        r == match state {
            AddMessageState::Unread => State::Unread,
            AddMessageState::Read => State::Read,
            AddMessageState::Archived => State::Archived,
        },
{
    match state {
        AddMessageState::Unread => State::Unread,
        AddMessageState::Read => State::Read,
        AddMessageState::Archived => State::Archived,
    }
}

/// The filter for the messages of a mailbox, or of all, in the given
/// states.
pub open spec fn scope(mailbox: Option<Mailbox>, states: Seq<State>) -> FilterView {
    FilterView {
        ids: None,
        mailbox: match mailbox {
            Some(m) => Some(m@),
            None => None,
        },
        states: Some(states),
    }
}

fn scoped(mailbox: Option<Mailbox>, states: Vec<State>) -> (filter: MessageFilter)
    ensures
        filter@ == scope(mailbox, states@),
{
    MessageFilter::new().with_mailbox_option(mailbox).with_states(states)
}

/// What a command asks for: `add` imports the one message; `import` reads
/// the standard input; `view` loads the messages in the chosen states;
/// `read` puts the unread messages into read; `archive` puts the unread and
/// the read messages into archived; `clear` deletes the archived messages;
/// all of them within the mailbox, where one is named.
pub fn plan_command(command: Command) -> (plan: CommandPlan)
    ensures
        match command {
            Command::Add { mailbox, content, state } => plan matches CommandPlan::Import(batch)
                && batch@ == seq![
                NewMessage {
                    mailbox,
                    content,
                    state: Some(
                        match state {
                            AddMessageState::Unread => State::Unread,
                            AddMessageState::Read => State::Read,
                            AddMessageState::Archived => State::Archived,
                        },
                    ),
                },
            ],
            Command::Import { format } => plan == CommandPlan::ImportInput(format),
            Command::View { mailbox, state, full_output } => plan matches CommandPlan::Run(
                Operation::LoadMessages(f),
            ) && f@ == scope(mailbox, view_states(state)),
            Command::Read { mailbox } => plan matches CommandPlan::Run(
                Operation::ChangeState(f, State::Read),
            ) && f@ == scope(mailbox, seq![State::Unread]),
            Command::Archive { mailbox } => plan matches CommandPlan::Run(
                Operation::ChangeState(f, State::Archived),
            ) && f@ == scope(mailbox, seq![State::Unread, State::Read]),
            Command::Clear { mailbox } => plan matches CommandPlan::Run(
                Operation::DeleteMessages(f),
            ) && f@ == scope(mailbox, seq![State::Archived]),
            Command::Tui { mailbox, state } => plan matches CommandPlan::Tui {
                mailbox: m,
                states,
            } && m == mailbox && states@ == view_states(state),
            Command::Config { subcommand } => plan == match subcommand {
                ConfigSubcommand::Locate => CommandPlan::LocateConfig,
                ConfigSubcommand::Edit => CommandPlan::EditConfig,
            },
        },
{
    match command {
        Command::Add { mailbox, content, state } => {
            let mut batch: Vec<NewMessage> = Vec::new();
            let message = NewMessage {
                mailbox,
                content,
                state: Some(state_from_add_message_state(state)),
            };
            batch.push(message);
            CommandPlan::Import(batch)
        },
        Command::Import { format } => CommandPlan::ImportInput(format),
        Command::View { mailbox, state, .. } => CommandPlan::Run(
            Operation::LoadMessages(scoped(mailbox, states_from_view_message_state(state))),
        ),
        Command::Read { mailbox } => {
            let mut states: Vec<State> = Vec::new();
            states.push(State::Unread);
            CommandPlan::Run(Operation::ChangeState(scoped(mailbox, states), State::Read))
        },
        Command::Archive { mailbox } => {
            let mut states: Vec<State> = Vec::new();
            states.push(State::Unread);
            states.push(State::Read);
            assert(states@ =~= seq![State::Unread, State::Read]);
            CommandPlan::Run(Operation::ChangeState(scoped(mailbox, states), State::Archived))
        },
        Command::Clear { mailbox } => {
            let mut states: Vec<State> = Vec::new();
            states.push(State::Archived);
            CommandPlan::Run(Operation::DeleteMessages(scoped(mailbox, states)))
        },
        Command::Tui { mailbox, state } => CommandPlan::Tui {
            mailbox,
            states: states_from_view_message_state(state),
        },
        Command::Config { subcommand } => match subcommand {
            ConfigSubcommand::Locate => CommandPlan::LocateConfig,
            ConfigSubcommand::Edit => CommandPlan::EditConfig,
        },
    }
}

/// What is known of the terminal and of the wishes of the user when the
/// formatter is made.
#[derive(Clone, Copy, Debug)]
pub struct FormatterOptions {
    /// Whether the output goes to a terminal.
    pub tty: bool,
    /// Whether the output is to be cut to the size of the terminal.
    pub truncate: bool,
    /// The columns and rows of the terminal, where they could be found.
    pub size: Option<(u16, u16)>,
    /// Whether colours were asked for.
    pub color: bool,
    /// Whether colours were refused.
    pub no_color: bool,
    /// Whether the environment is for colours.
    pub environment_color: bool,
    /// The format of the time that was asked for, if one was.
    pub timestamp_format: Option<TimestampFormat>,
}

impl FormatterOptions {
    /// What the command line and the terminal say of the output: it is cut
    /// for the command `view` unless the full output was asked for.
    pub fn from_cli(cli: &Cli, tty: bool, size: Option<(u16, u16)>, environment_color: bool) -> (options:
        FormatterOptions)
        ensures
            options == (FormatterOptions {
                tty,
                truncate: cli.command matches Command::View { full_output, .. } && !full_output,
                size,
                color: cli.color,
                no_color: cli.no_color,
                environment_color,
                timestamp_format: cli.timestamp_format,
            }),
    {
        let truncate = match &cli.command {
            Command::View { full_output, .. } => !*full_output,
            _ => false,
        };
        FormatterOptions {
            tty,
            truncate,
            size,
            color: cli.color,
            no_color: cli.no_color,
            environment_color,
            timestamp_format: cli.timestamp_format,
        }
    }
}

/// The columns of a terminal whose size is not known.
pub const DEFAULT_WIDTH: usize = 80;

/// The lines that are shown at least, and of a terminal whose size is not
/// known.
pub const DEFAULT_HEIGHT: usize = 8;

/// The columns and lines that the output is held to: none unless it is cut
/// and goes to a terminal; else the columns of the terminal and its rows
/// less four, but no fewer than 8 lines; and 80 by 8 where the size of the
/// terminal is not known.
pub open spec fn output_size(options: FormatterOptions) -> Option<(usize, usize)> {
    if options.truncate && options.tty {
        match options.size {
            Some((width, height)) => Some(
                (
                    width as usize,
                    if height - 4 > DEFAULT_HEIGHT {
                        (height - 4) as usize
                    } else {
                        DEFAULT_HEIGHT
                    },
                ),
            ),
            None => Some((DEFAULT_WIDTH, DEFAULT_HEIGHT)),
        }
    } else {
        None
    }
}

/// The formatter for the output: with colours where they were asked for,
/// without where they were refused, and else as the environment has it;
/// with the time in the format that was asked for, and else in words on a
/// terminal and in local time elsewhere; and held to the size of the
/// terminal as `output_size` says.
pub fn create_formatter(options: &FormatterOptions) -> (formatter: MessageFormatter)
    ensures
        formatter.color() == (if options.color {
            true
        } else if options.no_color {
            false
        } else {
            options.environment_color
        }),
        formatter.timestamp_format() == match options.timestamp_format {
            Some(format) => format,
            None => if options.tty {
                TimestampFormat::Relative
            } else {
                TimestampFormat::Local
            },
        },
        formatter.max_columns() == match output_size(*options) {
            Some(size) => Some(size.0),
            None => None,
        },
        formatter.max_lines() == match output_size(*options) {
            Some(size) => Some(size.1),
            None => None,
        },
        formatter@.local_times.len() == 0,
{
    let size: Option<(usize, usize)> = if options.truncate && options.tty {
        match options.size {
            Some((width, height)) => {
                // A little less than all the lines of the terminal.
                let lines = if height > 4 {
                    (height - 4) as usize
                } else {
                    0
                };
                Some(
                    (
                        width as usize,
                        if lines > DEFAULT_HEIGHT {
                            lines
                        } else {
                            DEFAULT_HEIGHT
                        },
                    ),
                )
            },
            None => Some((DEFAULT_WIDTH, DEFAULT_HEIGHT)),
        }
    } else {
        None
    };
    let colorize = if options.color {
        true
    } else if options.no_color {
        false
    } else {
        options.environment_color
    };
    let timestamp_format = match options.timestamp_format {
        Some(format) => format,
        None => if options.tty {
            TimestampFormat::Relative
        } else {
            TimestampFormat::Local
        },
    };
    MessageFormatter::new().with_color(colorize).with_timestamp_format(
        timestamp_format,
    ).with_max_columns(
        match size {
            Some(s) => Some(s.0),
            None => None,
        },
    ).with_max_lines(
        match size {
            Some(s) => Some(s.1),
            None => None,
        },
    )
}

} // verus!
