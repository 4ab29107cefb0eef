//! The decisions of the event loop of the interactive program.
//!
//! The loop reads the events of the terminal, takes in the answers of the
//! worker, and draws when something has changed. Reading, waiting and
//! drawing are done by whoever runs the loop; what an event does is decided
//! here.

use vstd::prelude::*;
use crate::app::{App, Pane};
use crate::input_event::{InputEvent, Key};
use crate::keys::{
    KeyOutcome,
    global_command_done,
    global_command_of,
    handle_global_key,
    handle_pane_key,
    mailbox_command_done,
    mailbox_command_of,
    message_command_done,
    message_command_of,
};

use crate::worker::Request;

verus! {

/// An event of the terminal, as far as the program tells events apart.
#[derive(Clone, Copy, Debug, PartialEq, Eq, Structural)]
pub enum UiEvent {
    /// A key was pressed.
    Key(InputEvent),
    /// The left button of the mouse went down at the given cell.
    Click { column: u16, row: u16 },
    /// The wheel of the mouse turned down.
    ScrollDown,
    /// The wheel of the mouse turned up.
    ScrollUp,
    /// The terminal has the given number of columns and rows now.
    Resize(u16, u16),
    /// Anything else.
    Other,
}

/// A cell of the screen.
#[derive(Clone, Copy, Debug, PartialEq, Eq, Structural)]
pub struct Cell {
    pub column: u16,
    pub row: u16,
}

/// The size of the terminal.
#[derive(Clone, Copy, Debug, PartialEq, Eq, Structural)]
pub struct Size {
    pub columns: u16,
    pub rows: u16,
}

/// A rectangle of cells of the screen.
#[derive(Clone, Copy, Debug, PartialEq, Eq, Structural)]
pub struct Area {
    pub x: u16,
    pub y: u16,
    pub width: u16,
    pub height: u16,
}

impl Area {
    /// Whether the cell lies in the rectangle.
    pub open spec fn holds(self, column: u16, row: u16) -> bool {
        self.x <= column < self.x + self.width && self.y <= row < self.y + self.height
    }

    /// Whether the cell lies in the rectangle.
    pub fn contains(&self, column: u16, row: u16) -> (r: bool)
        ensures
            r == self.holds(column, row),
    {
        column >= self.x && (column - self.x) < self.width && row >= self.y && (row - self.y)
            < self.height
    }
}

/// Where the parts of the program stand on the screen.
#[derive(Clone, Copy, Debug, PartialEq, Eq, Structural)]
pub struct AppLayout {
    pub mailboxes: Area,
    pub messages: Area,
    pub status: Area,
    pub loading: Area,
}

/// How much of the length that is split a part takes.
#[derive(Clone, Copy, Debug, PartialEq, Eq, Structural)]
pub enum Part {
    /// What the other part leaves, by the given weight.
    Fill(u16),
    /// So many rows or columns.
    Length(u16),
    /// So many hundredths of the length.
    Percentage(u16),
}

/// A length split in two.
#[derive(Clone, Copy, Debug, PartialEq, Eq, Structural)]
pub struct Split {
    pub first: Part,
    pub second: Part,
}

/// How the screen is split among the parts of the program.
#[derive(Clone, Copy, Debug, PartialEq, Eq, Structural)]
pub struct LayoutPlan {
    /// The rows of the screen: the content above the footer.
    pub rows: Split,
    /// The columns of the content: the mailboxes beside the messages.
    pub content: Split,
    /// The columns of the footer: the status beside the loading mark.
    pub footer: Split,
}

/// How the screen is split: the footer is the last row; the mailboxes take
/// a quarter of the width of the content and the messages the rest; the
/// loading mark takes the last ten columns of the footer.
pub fn layout_plan() -> (plan: LayoutPlan)
    ensures
        plan == (LayoutPlan {
            rows: Split { first: Part::Fill(1), second: Part::Length(1) },
            content: Split { first: Part::Percentage(25), second: Part::Percentage(75) },
            footer: Split { first: Part::Fill(1), second: Part::Length(10) },
        }),
{
    LayoutPlan {
        rows: Split { first: Part::Fill(1), second: Part::Length(1) },
        content: Split { first: Part::Percentage(25), second: Part::Percentage(75) },
        footer: Split { first: Part::Fill(1), second: Part::Length(10) },
    }
}

/// What the loop remembers from one round to the next.
#[derive(Clone, Copy, Debug, PartialEq, Eq, Structural)]
pub struct EventLoop {
    /// Whether nothing has been drawn yet.
    pub first_render: bool,
    /// The size of the terminal as of the last resize.
    pub last_size: Option<Size>,
}

/// What the loop gathers in one round.
#[derive(Clone, Copy, Debug, PartialEq, Eq, Structural)]
pub struct Round {
    /// Whether anything has changed, so that the screen is to be drawn.
    pub updated: bool,
    /// The cell that was clicked last, if any was.
    pub click_position: Option<Cell>,
}

/// What an event has done besides changing the program.
#[derive(Debug)]
pub struct EventOutcome {
    /// Whether the program is to end.
    pub quit: bool,
    /// Whether the event meant anything to the program.
    pub handled: bool,
    /// The requests to send to the worker, in order.
    pub requests: Vec<Request>,
    /// The link to open in a browser, if one is to be opened.
    pub open_url: Option<String>,
}

/// What a key does: a key that works everywhere does that; any other key
/// goes to the active pane. `handled` says whether it meant anything.
pub open spec fn key_done(
    before: App,
    event: InputEvent,
    after: App,
    handled: bool,
    requests: Seq<Request>,
    open_url: Option<String>,
) -> bool {
    match global_command_of(event) {
        Some(command) => handled && open_url is None && global_command_done(
            before,
            command,
            after,
            requests,
        ),
        None => match before.active_pane {
            Pane::Mailboxes => open_url is None && match mailbox_command_of(event) {
                Some(command) => handled && mailbox_command_done(before, command, after, requests),
                None => !handled && after == before && requests.len() == 0,
            },
            Pane::Messages => match message_command_of(event, before.messages.mode()) {
                Some(command) => handled && message_command_done(
                    before,
                    command,
                    after,
                    requests,
                    open_url,
                ),
                None => !handled && after == before && requests.len() == 0 && open_url is None,
            },
        },
    }
}

/// Handles a key: first as a key that works everywhere, then as a key of
/// the active pane.
pub fn handle_key(app: &mut App, event: &InputEvent) -> (outcome: KeyOutcome)
    ensures
        key_done(
            *old(app),
            *event,
            *final(app),
            outcome.handled,
            outcome.requests@,
            outcome.open_url,
        ),
{
    let outcome = handle_global_key(app, event);
    if outcome.handled {
        // The active pane does not see a key that works everywhere.
        outcome
    } else {
        handle_pane_key(app, event)
    }
}

impl EventLoop {
    /// The loop before its first round.
    pub fn new() -> (events: Self)
        ensures
            events == (EventLoop { first_render: true, last_size: None }),
    {
        EventLoop { first_render: true, last_size: None }
    }

    /// Begins a round: the screen is to be drawn if it never was, and
    /// nothing was clicked.
    pub fn begin_round(&self) -> (round: Round)
        ensures
            round == (Round { updated: self.first_render, click_position: None }),
    {
        Round { updated: self.first_render, click_position: None }
    }

    /// Takes in one event of the terminal.
    ///
    /// The key `q` ends the program. Any other key does what `handle_key`
    /// says, and the screen is to be drawn if the key meant anything. A
    /// click is remembered, for the pane under it to be made active when
    /// the screen is drawn. The wheel of the mouse does what the down and
    /// the up arrow do in the active pane. A resize has the screen drawn
    /// if the size differs from the last one.
    pub fn handle_event(&mut self, app: &mut App, round: &mut Round, event: UiEvent) -> (outcome:
        EventOutcome)
        ensures
            final(self).first_render == old(self).first_render,
            match event {
                UiEvent::Key(key) => if key.key == Key::Char('q') {
                    &&& outcome.quit && outcome.handled
                    &&& outcome.requests@.len() == 0 && outcome.open_url is None
                    &&& *final(app) == *old(app)
                    &&& *final(round) == *old(round)
                    &&& *final(self) == *old(self)
                } else {
                    &&& !outcome.quit
                    &&& *final(self) == *old(self)
                    &&& final(round).click_position == old(round).click_position
                    &&& key_done(
                        *old(app),
                        key,
                        *final(app),
                        outcome.handled,
                        outcome.requests@,
                        outcome.open_url,
                    )
                    &&& final(round).updated == (outcome.handled || old(round).updated)
                },
                UiEvent::Click { column, row } => {
                    &&& !outcome.quit && outcome.handled
                    &&& outcome.requests@.len() == 0 && outcome.open_url is None
                    &&& *final(app) == *old(app)
                    &&& *final(self) == *old(self)
                    &&& *final(round) == (Round {
                        updated: true,
                        click_position: Some(Cell { column, row }),
                    })
                },
                UiEvent::ScrollDown | UiEvent::ScrollUp => {
                    let key = InputEvent {
                        key: if event == UiEvent::ScrollDown {
                            Key::Down
                        } else {
                            Key::Up
                        },
                        control: false,
                    };
                    &&& !outcome.quit
                    &&& *final(self) == *old(self)
                    &&& final(round).click_position == old(round).click_position
                    &&& pane_key_done(
                        *old(app),
                        key,
                        *final(app),
                        outcome.handled,
                        outcome.requests@,
                        outcome.open_url,
                    )
                    &&& final(round).updated == (outcome.handled || old(round).updated)
                },
                UiEvent::Resize(columns, rows) => {
                    &&& !outcome.quit
                    &&& outcome.handled == (old(self).last_size != Some(Size { columns, rows }))
                    &&& outcome.requests@.len() == 0 && outcome.open_url is None
                    &&& *final(app) == *old(app)
                    &&& final(self).last_size == Some(Size { columns, rows })
                    &&& final(round).click_position == old(round).click_position
                    &&& final(round).updated == (old(self).last_size != Some(Size { columns, rows })
                        || old(round).updated)
                },
                UiEvent::Other => {
                    &&& !outcome.quit && !outcome.handled
                    &&& outcome.requests@.len() == 0 && outcome.open_url is None
                    &&& *final(app) == *old(app)
                    &&& *final(self) == *old(self)
                    &&& *final(round) == *old(round)
                },
            },
    {
        match event {
            UiEvent::Key(key) => {
                if key.key == Key::Char('q') {
                    return EventOutcome { quit: true, handled: true, requests: Vec::new(), open_url: None };
                }
                let outcome = handle_key(app, &key);
                round.updated = outcome.handled || round.updated;
                EventOutcome {
                    quit: false,
                    handled: outcome.handled,
                    requests: outcome.requests,
                    open_url: outcome.open_url,
                }
            },
            UiEvent::Click { column, row } => {
                round.click_position = Some(Cell { column, row });
                round.updated = true;
                EventOutcome { quit: false, handled: true, requests: Vec::new(), open_url: None }
            },
            UiEvent::ScrollDown => {
                let outcome = handle_pane_key(app, &InputEvent::from_key(Key::Down));
                round.updated = outcome.handled || round.updated;
                EventOutcome {
                    quit: false,
                    handled: outcome.handled,
                    requests: outcome.requests,
                    open_url: outcome.open_url,
                }
            },
            UiEvent::ScrollUp => {
                let outcome = handle_pane_key(app, &InputEvent::from_key(Key::Up));
                round.updated = outcome.handled || round.updated;
                EventOutcome {
                    quit: false,
                    handled: outcome.handled,
                    requests: outcome.requests,
                    open_url: outcome.open_url,
                }
            },
            UiEvent::Resize(columns, rows) => {
                let current_size = Some(Size { columns, rows });
                let changed = match self.last_size {
                    Some(size) => size.columns != columns || size.rows != rows,
                    None => true,
                };
                round.updated = changed || round.updated;
                self.last_size = current_size;
                EventOutcome { quit: false, handled: changed, requests: Vec::new(), open_url: None }
            },
            UiEvent::Other => EventOutcome {
                quit: false,
                handled: false,
                requests: Vec::new(),
                open_url: None,
            },
        }
    }

    /// Ends a round: `responses_handled` says whether an answer of the
    /// worker was taken in. Returns whether the screen is to be drawn.
    pub fn end_round(&mut self, round: Round, responses_handled: bool) -> (draw: bool)
        ensures
            draw == (round.updated || responses_handled),
            *final(self) == (EventLoop { first_render: false, ..*old(self) }),
    {
        self.first_render = false;
        round.updated || responses_handled
    }
}

/// What a key does in the active pane.
pub open spec fn pane_key_done(
    before: App,
    event: InputEvent,
    after: App,
    handled: bool,
    requests: Seq<Request>,
    open_url: Option<String>,
) -> bool {
    match before.active_pane {
        Pane::Mailboxes => open_url is None && match mailbox_command_of(event) {
            Some(command) => handled && mailbox_command_done(before, command, after, requests),
            None => !handled && after == before && requests.len() == 0,
        },
        Pane::Messages => match message_command_of(event, before.messages.mode()) {
            Some(command) => handled && message_command_done(
                before,
                command,
                after,
                requests,
                open_url,
            ),
            None => !handled && after == before && requests.len() == 0 && open_url is None,
        },
    }
}

/// Makes the pane under the cell that was clicked the active pane; a click
/// outside the two panes changes nothing.
pub fn activate_clicked_pane(app: &mut App, layout: &AppLayout, column: u16, row: u16)
    ensures
        *final(app) == (App {
            active_pane: if layout.mailboxes.holds(column, row) {
                Pane::Mailboxes
            } else if layout.messages.holds(column, row) {
                Pane::Messages
            } else {
                old(app).active_pane
            },
            ..*old(app)
        }),
{
    if layout.mailboxes.contains(column, row) {
        app.activate_pane(Pane::Mailboxes);
    } else if layout.messages.contains(column, row) {
        app.activate_pane(Pane::Messages);
    }
}

} // verus!
