//! What the interactive program writes on the screen, as text and marks.
//! Drawing it is left to the terminal library.

use vstd::prelude::*;
use crate::app::{App, StateSet};
use crate::decimal::{decimal, format_u128};
use crate::mailbox::leaf_name;
use crate::mailbox_tree::MailboxRow;
use crate::message::{Message, State};
use crate::multiselect_list::SelectionMode;
use crate::navigable_list::NavigableList;
use crate::text::push_char;
use crate::time_text::{distance, human_time, relative_time};

verus! {

/// How a piece of text is drawn.
#[derive(Clone, Copy, Debug, PartialEq, Eq, Structural)]
pub enum SpanStyle {
    /// As the terminal draws text.
    Plain,
    /// As the mark of a state that is shown.
    Active,
    /// As the note of the selection mode.
    Note,
    /// As the mark of an unread message.
    Unread,
    /// As the mark of a selected message.
    Bullet,
    /// As a time.
    Time,
}

/// A piece of text with its style.
#[derive(Debug, PartialEq, Eq)]
pub struct Span {
    pub text: String,
    pub style: SpanStyle,
}

/// `n` spaces.
pub open spec fn spaces(n: nat) -> Seq<char> {
    Seq::new(n, |i: int| ' ')
}

/// The line of a row of the tree of mailboxes: one space for every level
/// of depth, the last segment of the path, and the count in brackets.
pub open spec fn mailbox_label_text(name: Seq<char>, depth: usize, count: usize) -> Seq<char> {
    spaces(depth as nat) + leaf_name(name) + " ("@ + decimal(count as nat) + ")"@
}

/// The title of a pane: its name and, in brackets, the number of its
/// items, behind the position of the cursor, counted from 1, where there is
/// a cursor.
pub open spec fn list_title_text(name: Seq<char>, cursor: Option<usize>, count: usize) -> Seq<char> {
    name + " ("@ + (match cursor {
        Some(index) => decimal((index + 1) as nat) + "/"@,
        None => Seq::empty(),
    }) + decimal(count as nat) + ")"@
}

/// The line of a row of the tree of mailboxes.
pub fn mailbox_label(row: &MailboxRow) -> (label: String)
    ensures
        label@ == mailbox_label_text(row.mailbox@, row.depth, row.message_count),
{
    let mut label = String::new();
    let mut i: usize = 0;
    while i < row.depth
        invariant
            i <= row.depth,
            label@ == spaces(i as nat),
        decreases row.depth - i,
    {
        push_char(&mut label, ' ');
        i += 1;
    }
    label.append(row.mailbox.get_leaf_name());
    label.append(" (");
    label.append(format_u128(row.message_count as u128).as_str());
    label.append(")");
    label
}

/// The title of a pane.
pub fn list_title(name: &str, cursor: Option<usize>, count: usize) -> (title: String)
    ensures
        title@ == list_title_text(name@, cursor, count),
{
    let mut title = name.to_owned();
    title.append(" (");
    if let Some(index) = cursor {
        title.append(format_u128(index as u128 + 1).as_str());
        title.append("/");
    }
    title.append(format_u128(count as u128).as_str());
    title.append(")");
    title
}

/// The style of the mark of a state in the status line.
pub open spec fn state_style(states: StateSet, state: State) -> SpanStyle {
    if states.has(state) {
        SpanStyle::Active
    } else {
        SpanStyle::Plain
    }
}

/// The note of the selection mode in the status line.
pub open spec fn mode_note(mode: SelectionMode) -> Seq<char> {
    match mode {
        SelectionMode::Off => ""@,
        SelectionMode::Select => "selecting"@,
        SelectionMode::Deselect => "deselecting"@,
    }
}

/// The texts and styles of the status line: the three states, each marked
/// where it is shown, and the note of the selection mode.
pub open spec fn status_of(states: StateSet, mode: SelectionMode) -> Seq<(Seq<char>, SpanStyle)> {
    seq![
        (" "@, SpanStyle::Plain),
        (" unread "@, state_style(states, State::Unread)),
        (" "@, SpanStyle::Plain),
        (" read "@, state_style(states, State::Read)),
        (" "@, SpanStyle::Plain),
        (" archived "@, state_style(states, State::Archived)),
        ("   "@, SpanStyle::Plain),
        (mode_note(mode), SpanStyle::Note),
    ]
}

/// The texts and styles of a list of spans.
pub open spec fn span_views(spans: Seq<Span>) -> Seq<(Seq<char>, SpanStyle)> {
    spans.map_values(|s: Span| (s.text@, s.style))
}

fn span(text: &str, style: SpanStyle) -> (s: Span)
    ensures
        s.text@ == text@,
        s.style == style,
{
    Span { text: text.to_owned(), style }
}

fn state_span(text: &str, states: &StateSet, state: State) -> (s: Span)
    ensures
        s.text@ == text@,
        s.style == state_style(*states, state),
{
    let style = if states.contains(state) {
        SpanStyle::Active
    } else {
        SpanStyle::Plain
    };
    span(text, style)
}

/// The status line of the program.
pub fn render_status(app: &App) -> (spans: Vec<Span>)
    ensures
        span_views(spans@) == status_of(app.active_states, app.messages.mode()),
{
    let mut spans: Vec<Span> = Vec::new();
    spans.push(span(" ", SpanStyle::Plain));
    spans.push(state_span(" unread ", &app.active_states, State::Unread));
    spans.push(span(" ", SpanStyle::Plain));
    spans.push(state_span(" read ", &app.active_states, State::Read));
    spans.push(span(" ", SpanStyle::Plain));
    spans.push(state_span(" archived ", &app.active_states, State::Archived));
    spans.push(span("   ", SpanStyle::Plain));
    let note = match app.messages.get_selection_mode() {
        SelectionMode::Off => "",
        SelectionMode::Select => "selecting",
        SelectionMode::Deselect => "deselecting",
    };
    spans.push(span(note, SpanStyle::Note));
    spans
}

/// What the program shows while requests are pending: `Loading...` while
/// there are any, nothing else.
pub fn render_loading(pending_requests: usize) -> (text: &'static str)
    ensures
        text@ == (if pending_requests > 0 {
            "Loading..."@
        } else {
            ""@
        }),
{
    if pending_requests > 0 {
        "Loading..."
    } else {
        ""
    }
}

/// The texts and styles of the line of a message: a bullet where it is
/// selected, the mark of its state, its content, and its age in words.
pub open spec fn message_line_of(message: Message, selected: bool, now: i64) -> Seq<
    (Seq<char>, SpanStyle),
> {
    seq![
        if selected {
            ("\u{2022} "@, SpanStyle::Bullet)
        } else {
            ("  "@, SpanStyle::Plain)
        },
        match message.state {
            State::Unread => ("* "@, SpanStyle::Unread),
            State::Read => ("  "@, SpanStyle::Plain),
            State::Archived => ("- "@, SpanStyle::Plain),
        },
        (message.content@, SpanStyle::Plain),
        (" @ "@ + human_time(distance(message.timestamp, now)), SpanStyle::Time),
    ]
}

/// The line of a message in the list of messages, for a reader at the time
/// `now`.
pub fn render_message(message: &Message, selected: bool, now: i64) -> (spans: Vec<Span>)
    ensures
        span_views(spans@) == message_line_of(*message, selected, now),
{
    let mut spans: Vec<Span> = Vec::new();
    if selected {
        spans.push(span("\u{2022} ", SpanStyle::Bullet));
    } else {
        spans.push(span("  ", SpanStyle::Plain));
    }
    match message.state {
        State::Unread => {
            spans.push(span("* ", SpanStyle::Unread));
        },
        State::Read => {
            spans.push(span("  ", SpanStyle::Plain));
        },
        State::Archived => {
            spans.push(span("- ", SpanStyle::Plain));
        },
    }
    spans.push(span(message.content.as_str(), SpanStyle::Plain));
    let mut time = " @ ".to_owned();
    time.append(relative_time(message.timestamp, now).as_str());
    spans.push(Span { text: time, style: SpanStyle::Time });
    spans
}

/// The lines of the tree of mailboxes, one for every row.
pub fn render_mailboxes(app: &App) -> (lines: Vec<String>)
    ensures
        lines@.len() == app.mailboxes.items().len(),
        forall|i: int|
            0 <= i < lines@.len() ==> (#[trigger] lines@[i])@ == mailbox_label_text(
                app.mailboxes.items()[i].mailbox@,
                app.mailboxes.items()[i].depth,
                app.mailboxes.items()[i].message_count,
            ),
{
    let rows = app.mailboxes.get_items();
    let mut lines: Vec<String> = Vec::new();
    let mut i: usize = 0;
    while i < rows.len()
        invariant
            i <= rows.len(),
            rows@ == app.mailboxes.items(),
            lines@.len() == i,
            forall|k: int|
                0 <= k < i ==> (#[trigger] lines@[k])@ == mailbox_label_text(
                    rows@[k].mailbox@,
                    rows@[k].depth,
                    rows@[k].message_count,
                ),
        decreases rows.len() - i,
    {
        lines.push(mailbox_label(&rows[i]));
        i += 1;
    }
    lines
}

/// The lines of the list of messages, one for every message, for a reader
/// at the time `now`.
pub fn render_messages(app: &App, now: i64) -> (lines: Vec<Vec<Span>>)
    ensures
        lines@.len() == app.messages.items().len(),
        forall|i: int|
            0 <= i < lines@.len() ==> span_views((#[trigger] lines@[i])@) == message_line_of(
                app.messages.items()[i],
                app.messages.selected().contains(app.messages.items()[i].id as u64),
                now,
            ),
{
    let items = app.messages.iter_items_with_selected();
    let mut lines: Vec<Vec<Span>> = Vec::new();
    let mut i: usize = 0;
    while i < items.len()
        invariant
            i <= items.len(),
            items@.len() == app.messages.items().len(),
            forall|k: int|
                0 <= k < items@.len() ==> {
                    &&& *(#[trigger] items@[k]).0 == app.messages.items()[k]
                    &&& items@[k].1 == app.messages.selected().contains(
                        app.messages.items()[k].id as u64,
                    )
                },
            lines@.len() == i,
            forall|k: int|
                0 <= k < i ==> span_views((#[trigger] lines@[k])@) == message_line_of(
                    app.messages.items()[k],
                    app.messages.selected().contains(app.messages.items()[k].id as u64),
                    now,
                ),
        decreases items.len() - i,
    {
        let (message, selected) = items[i];
        lines.push(render_message(message, selected, now));
        i += 1;
    }
    lines
}

/// The titles of the two panes.
pub fn pane_titles(app: &App) -> (titles: (String, String))
    ensures
        titles.0@ == list_title_text(
            "Mailboxes"@,
            app.mailboxes.cursor(),
            app.mailboxes.items().len() as usize,
        ),
        titles.1@ == list_title_text(
            "Messages"@,
            app.messages.cursor(),
            app.messages.items().len() as usize,
        ),
{
    (
        list_title("Mailboxes", app.mailboxes.get_cursor(), app.mailboxes.get_items().len()),
        list_title("Messages", app.messages.get_cursor(), app.messages.get_items().len()),
    )
}

} // verus!
