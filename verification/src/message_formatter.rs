//! Messages as lines of text for a terminal: one line for every message,
//! grouped by mailbox, and no more lines than the terminal has.

use vstd::prelude::*;
use crate::decimal::{decimal, format_u128, format_u64};
use crate::message::{Message, State};
use crate::message_components::{ComponentsView, MessageComponents, truncated_components};
use crate::message_list::clone_messages;
use crate::store::{sort_latest_first, sorted_latest_first};
use crate::text::{chars_of, chars_lt, lemma_lex_lt_total, lemma_lex_lt_transitive, lex_lt, same_text};
use crate::time_text::{TimestampFormat, current_time, format_time, table_view, time_text};
use crate::truncate::{
    Paint,
    TruncatedLine,
    all_plain,
    joined,
    lemma_shown_paints,
    paint_sections,
    section_views,
    shown,
};

verus! {

/// A word that has a plural.
#[derive(Clone, Copy, Debug, PartialEq, Eq, Structural)]
pub enum Word {
    Message,
    Mailbox,
}

/// How messages are written: with colours or without, with the time in one
/// of three formats, and within how many columns and lines. For times in
/// the time zone of the machine the formatter holds a table of times and
/// their texts, which the program around the library fills.
#[derive(Debug)]
pub struct MessageFormatter {
    color: bool,
    timestamp_format: TimestampFormat,
    max_columns: Option<usize>,
    max_lines: Option<usize>,
    local_times: Vec<(i64, String)>,
}

/// A formatter as mathematical values.
pub struct FormatterView {
    pub color: bool,
    pub timestamp_format: TimestampFormat,
    pub max_columns: Option<usize>,
    pub max_lines: Option<usize>,
    pub local_times: Seq<(i64, Seq<char>)>,
}

impl View for MessageFormatter {
    type V = FormatterView;

    closed spec fn view(&self) -> FormatterView {
        FormatterView {
            color: self.color,
            timestamp_format: self.timestamp_format,
            max_columns: self.max_columns,
            max_lines: self.max_lines,
            local_times: table_view(self.local_times@),
        }
    }
}

/// The messages of one mailbox, the latest first.
#[derive(Debug)]
struct MailboxGroup {
    /// The mailbox.
    pub name: String,
    /// Its messages, the latest first.
    pub messages: Vec<Message>,
}

/// The messages of one mailbox as mathematical values.
pub struct GroupView {
    /// The name of the mailbox.
    pub name: Seq<char>,
    /// Its messages, the latest first.
    pub messages: Seq<Message>,
}

impl View for MailboxGroup {
    type V = GroupView;

    closed spec fn view(&self) -> GroupView {
        GroupView { name: self.name@, messages: self.messages@ }
    }
}

/// The mark of a state at the head of a line.
pub open spec fn state_mark(state: State) -> Seq<char> {
    match state {
        State::Unread => "*"@,
        State::Read => " "@,
        State::Archived => "-"@,
    }
}

/// The sections with one more section; an empty text adds none.
pub open spec fn with_section(sections: Seq<(Seq<char>, Paint)>, text: Seq<char>, paint: Paint) -> Seq<
    (Seq<char>, Paint),
> {
    if text.len() == 0 {
        sections
    } else {
        sections.push((text, paint))
    }
}

/// The paint where colours are used, and no paint where they are not.
pub open spec fn paint_if(color: bool, paint: Paint) -> Paint {
    if color {
        paint
    } else {
        Paint::Plain
    }
}

/// The sections of the line of a message whose parts are `c`: the mark of
/// the state, in bold red for an unread message; the content; the mailbox
/// in brackets, in bold green; the time behind an `@`, in yellow; and what
/// follows. Empty sections are left out, and without colours every section
/// is plain.
pub open spec fn message_sections(color: bool, c: ComponentsView) -> Seq<(Seq<char>, Paint)> {
    with_section(
        with_section(
            with_section(
                with_section(
                    with_section(
                        with_section(
                            Seq::empty(),
                            state_mark(c.state),
                            paint_if(color && c.state == State::Unread, Paint::RedBold),
                        ),
                        " "@ + c.content + " ["@,
                        Paint::Plain,
                    ),
                    c.mailbox,
                    paint_if(color, Paint::GreenBold),
                ),
                "] @ "@,
                Paint::Plain,
            ),
            c.time,
            paint_if(color, Paint::Yellow),
        ),
        c.appendix,
        Paint::Plain,
    )
}

/// The word in the singular for a count of one, else in the plural.
pub open spec fn plural(word: Word, count: usize) -> Seq<char> {
    match word {
        Word::Mailbox => if count == 1 {
            "mailbox"@
        } else {
            "mailboxes"@
        },
        Word::Message => if count == 1 {
            "message"@
        } else {
            "messages"@
        },
    }
}

/// The names of the mailboxes that are not shown, in a few words: up to
/// three are all named; of more the first two are, with the number of the
/// others.
pub open spec fn hidden_summary(names: Seq<Seq<char>>) -> Seq<char> {
    if names.len() == 0 {
        Seq::empty()
    } else if names.len() == 1 {
        names[0]
    } else if names.len() == 2 {
        names[0] + " and "@ + names[1]
    } else if names.len() == 3 {
        names[0] + ", "@ + names[1] + ", and "@ + names[2]
    } else {
        names[0] + ", "@ + names[1] + ", and "@ + decimal((names.len() - 2) as nat) + " other "@
            + plural(Word::Mailbox, (names.len() - 2) as usize)
    }
}

/// The names of the mailboxes of the messages, each once, in the order in
/// which they first occur.
pub open spec fn mailbox_names(messages: Seq<Message>) -> Seq<Seq<char>>
    decreases messages.len(),
{
    if messages.len() == 0 {
        Seq::empty()
    } else {
        let names = mailbox_names(messages.drop_last());
        if names.contains(messages.last().mailbox@) {
            names
        } else {
            names.push(messages.last().mailbox@)
        }
    }
}

/// The messages of the mailbox `name`, in the order of the list.
pub open spec fn in_mailbox(messages: Seq<Message>, name: Seq<char>) -> Seq<Message>
    decreases messages.len(),
{
    if messages.len() == 0 {
        Seq::empty()
    } else if messages.last().mailbox@ == name {
        in_mailbox(messages.drop_last(), name).push(messages.last())
    } else {
        in_mailbox(messages.drop_last(), name)
    }
}

/// One group for every mailbox of the messages, in the order in which the
/// mailboxes first occur, each with its messages, the latest first.
pub open spec fn groups_of(messages: Seq<Message>) -> Seq<GroupView> {
    let names = mailbox_names(messages);
    Seq::new(
        names.len(),
        |i: int|
            GroupView {
                name: names[i],
                messages: sorted_latest_first(in_mailbox(messages, names[i])),
            },
    )
}

/// The time of the latest message of a group.
pub open spec fn latest(group: GroupView) -> i64 {
    group.messages[0].timestamp
}

/// Whether the group `a` is shown before the group `b`: the group with the
/// later message first, and of two with messages of the same time the one
/// whose name comes first.
pub open spec fn group_before(a: GroupView, b: GroupView) -> bool {
    latest(a) > latest(b) || (latest(a) == latest(b) && lex_lt(a.name, b.name))
}

/// Where a group goes into groups that are in the order in which they are
/// shown: before the first group at or after `from` that is shown after
/// it.
pub open spec fn group_place(sorted: Seq<GroupView>, group: GroupView, from: int) -> int
    decreases sorted.len() - from,
{
    if from < 0 || from >= sorted.len() {
        sorted.len() as int
    } else if group_before(group, sorted[from]) {
        from
    } else {
        group_place(sorted, group, from + 1)
    }
}

/// The groups in the order in which they are shown.
pub open spec fn ordered_groups(groups: Seq<GroupView>) -> Seq<GroupView>
    decreases groups.len(),
{
    if groups.len() == 0 {
        Seq::empty()
    } else {
        let rest = ordered_groups(groups.skip(1));
        rest.insert(group_place(rest, groups[0], 0), groups[0])
    }
}

/// The number of messages of every group.
pub open spec fn sizes_of(groups: Seq<GroupView>) -> Seq<nat> {
    Seq::new(groups.len(), |i: int| groups[i].messages.len())
}

/// The sum of the numbers.
pub open spec fn total(numbers: Seq<nat>) -> nat
    decreases numbers.len(),
{
    if numbers.len() == 0 {
        0
    } else {
        total(numbers.drop_last()) + numbers.last()
    }
}

/// One round of giving out lines: every group that has room for a line
/// gets one, in order, as long as fewer than `lines` are given.
pub open spec fn one_round(room: Seq<nat>, lines: nat) -> Seq<nat>
    decreases room.len(),
{
    if room.len() == 0 {
        Seq::empty()
    } else {
        let head = one_round(room.drop_last(), lines);
        head.push(
            if room.last() > 0 && total(head) < lines {
                1nat
            } else {
                0nat
            },
        )
    }
}

/// The numbers of `a`, each less the number of `b` at its place.
pub open spec fn less(a: Seq<nat>, b: Seq<nat>) -> Seq<nat> {
    Seq::new(a.len(), |i: int| (a[i] - b[i]) as nat)
}

/// The numbers of `a`, each with the number of `b` at its place added.
pub open spec fn more(a: Seq<nat>, b: Seq<nat>) -> Seq<nat> {
    Seq::new(a.len(), |i: int| a[i] + b[i])
}

/// The lines that groups of the given sizes get, of `lines` lines in all:
/// one line to every group that has a message without one, in order, and
/// so again round after round, until the lines are given out or every
/// message has one.
pub open spec fn allotted(sizes: Seq<nat>, lines: nat) -> Seq<nat>
    decreases lines,
{
    let first = one_round(sizes, lines);
    if 0 < total(first) <= lines {
        more(first, allotted(less(sizes, first), (lines - total(first)) as nat))
    } else {
        first
    }
}

/// The number of messages that every group shows, of `lines` lines in
/// all: where there are more groups than lines, so that not every group
/// can have a line, one message; else as many as the group is allotted
/// lines.
pub open spec fn shares(sizes: Seq<nat>, lines: nat) -> Seq<nat> {
    if sizes.len() > lines {
        Seq::new(sizes.len(), |i: int| 1nat)
    } else {
        allotted(sizes, lines)
    }
}

/// The largest number of columns of a line; without a limit, the largest
/// number there is.
pub open spec fn column_limit(max_columns: Option<usize>) -> usize {
    match max_columns {
        Some(columns) => columns,
        None => usize::MAX,
    }
}

/// The line of a message as sections, in at most `columns` columns, with
/// the time written as `time` and with `appendix` at its end.
pub open spec fn line_sections(
    color: bool,
    columns: usize,
    message: Message,
    time: Seq<char>,
    appendix: Seq<char>,
) -> Seq<(Seq<char>, Paint)> {
    shown(
        message_sections(
            color,
            truncated_components(
                ComponentsView {
                    state: message.state,
                    content: message.content@,
                    mailbox: message.mailbox@,
                    time,
                    appendix,
                },
                columns,
            ),
        ),
        0,
        columns,
    )
}

/// The line of a message without colours, as text.
pub open spec fn plain_line(columns: usize, message: Message, time: Seq<char>, appendix: Seq<char>) -> Seq<
    char,
> {
    joined(line_sections(false, columns, message, time, appendix))
}

/// The note at the end of the last line of a mailbox of which `hidden`
/// messages are not shown.
pub open spec fn older_hint(hidden: usize) -> Seq<char> {
    " (+"@ + decimal(hidden as nat) + " older "@ + plural(Word::Message, hidden) + ")"@
}

/// The first `upto` lines of a mailbox of which `given` messages are
/// shown. The last line that is shown says how many messages are not.
pub open spec fn group_lines(
    f: FormatterView,
    messages: Seq<Message>,
    given: nat,
    now: i64,
    upto: nat,
) -> Seq<Seq<(Seq<char>, Paint)>>
    decreases upto,
{
    if upto == 0 {
        Seq::empty()
    } else {
        let message = messages[upto - 1];
        let appendix = if given < messages.len() && upto == given {
            older_hint((messages.len() - given) as usize)
        } else {
            Seq::empty()
        };
        group_lines(f, messages, given, now, (upto - 1) as nat).push(
            line_sections(
                f.color,
                column_limit(f.max_columns),
                message,
                time_text(f.timestamp_format, message.timestamp, now, f.local_times),
                appendix,
            ),
        )
    }
}

/// The lines of the first `upto` groups, of which each shows as many
/// messages as `given` has for it.
pub open spec fn groups_lines(
    f: FormatterView,
    groups: Seq<GroupView>,
    given: Seq<nat>,
    now: i64,
    upto: nat,
) -> Seq<Seq<(Seq<char>, Paint)>>
    decreases upto,
{
    if upto == 0 {
        Seq::empty()
    } else {
        groups_lines(f, groups, given, now, (upto - 1) as nat) + group_lines(
            f,
            groups[upto - 1].messages,
            given[upto - 1],
            now,
            given[upto - 1],
        )
    }
}

/// The number of messages in the groups.
pub open spec fn message_count(groups: Seq<GroupView>) -> nat
    decreases groups.len(),
{
    if groups.len() == 0 {
        0
    } else {
        message_count(groups.drop_last()) + groups.last().messages.len()
    }
}

/// The names of the groups.
pub open spec fn names_of(groups: Seq<GroupView>) -> Seq<Seq<char>> {
    Seq::new(groups.len(), |i: int| groups[i].name)
}

/// The line on the groups that are not shown, one plain section that is
/// not cut; no line where every group is shown.
pub open spec fn others_lines(hidden: Seq<GroupView>) -> Seq<Seq<(Seq<char>, Paint)>> {
    if hidden.len() == 0 {
        Seq::empty()
    } else {
        seq![
            seq![
                (
                    "(+"@ + decimal(message_count(hidden)) + " older messages in "@ + hidden_summary(
                        names_of(hidden),
                    ) + ")"@,
                    Paint::Plain,
                ),
            ],
        ]
    }
}

/// The number of lines for `messages` messages: as many as there are
/// messages, and no more than the limit.
pub open spec fn line_limit(max_lines: Option<usize>, messages: nat) -> nat {
    match max_lines {
        Some(limit) => if limit < messages {
            limit as nat
        } else {
            messages
        },
        None => messages,
    }
}

/// The number of groups that are shown: all of them where every group can
/// have a line; else one less than there are lines, the last line being
/// the note on the others.
pub open spec fn shown_groups(groups: nat, lines: nat) -> nat {
    if groups <= lines {
        groups
    } else if lines == 0 {
        0
    } else {
        (lines - 1) as nat
    }
}

/// The lines of the messages as sections, for a reader at the time `now`.
///
/// The messages are grouped by mailbox, the mailbox with the latest message
/// first, and within a mailbox the latest message first. Where there are
/// fewer lines than messages, the lines go to the mailboxes in turn; a
/// mailbox that cannot show all its messages says how many more it has,
/// and where not every mailbox gets a line, the last line names the
/// mailboxes that got none.
pub open spec fn messages_lines(f: FormatterView, messages: Seq<Message>, now: i64) -> Seq<
    Seq<(Seq<char>, Paint)>,
> {
    let groups = ordered_groups(groups_of(messages));
    let lines = line_limit(f.max_lines, messages.len());
    let count = shown_groups(groups.len(), lines);
    groups_lines(f, groups, shares(sizes_of(groups), lines), now, count) + others_lines(
        groups.skip(count as int),
    )
}

/// The lines as text without colours, each with a line break at its end.
pub open spec fn lines_text(lines: Seq<Seq<(Seq<char>, Paint)>>) -> Seq<char>
    decreases lines.len(),
{
    if lines.len() == 0 {
        Seq::empty()
    } else {
        lines_text(lines.drop_last()) + joined(lines.last()) + "\n"@
    }
}

/// The lines of the messages as text without colours, each with a line
/// break at its end, for a reader at the time `now`.
pub open spec fn messages_text(f: FormatterView, messages: Seq<Message>, now: i64) -> Seq<char> {
    lines_text(messages_lines(FormatterView { color: false, ..f }, messages, now))
}

/// The lines as mathematical values.
pub open spec fn line_views(lines: Seq<Vec<(String, Paint)>>) -> Seq<Seq<(Seq<char>, Paint)>> {
    lines.map_values(|line: Vec<(String, Paint)>| section_views(line@))
}

/// Whether no section of the lines is coloured.
pub open spec fn all_lines_plain(lines: Seq<Seq<(Seq<char>, Paint)>>) -> bool {
    forall|i: int| 0 <= i < lines.len() ==> all_plain(#[trigger] lines[i])
}

/// The views of the groups.
spec fn group_views(groups: Seq<MailboxGroup>) -> Seq<GroupView> {
    Seq::new(groups.len(), |i: int| groups[i]@)
}

/// The numbers as natural numbers.
spec fn counts(numbers: Seq<usize>) -> Seq<nat> {
    Seq::new(numbers.len(), |i: int| numbers[i] as nat)
}

impl MessageFormatter {
    /// Whether colours are used.
    pub open spec fn color(&self) -> bool {
        self@.color
    }

    /// The format of the time.
    pub open spec fn timestamp_format(&self) -> TimestampFormat {
        self@.timestamp_format
    }

    /// The largest number of columns of a line, if there is one.
    pub open spec fn max_columns(&self) -> Option<usize> {
        self@.max_columns
    }

    /// The largest number of lines, if there is one.
    pub open spec fn max_lines(&self) -> Option<usize> {
        self@.max_lines
    }

    /// A formatter with colours, the time in words, no limits, and an
    /// empty table of local times.
    pub fn new() -> (f: Self)
        ensures
            f@ == (FormatterView {
                color: true,
                timestamp_format: TimestampFormat::Relative,
                max_columns: None,
                max_lines: None,
                local_times: Seq::empty(),
            }),
    {
        let f = MessageFormatter {
            color: true,
            timestamp_format: TimestampFormat::Relative,
            max_columns: None,
            max_lines: None,
            local_times: Vec::new(),
        };
        assert(f@.local_times =~= Seq::empty());
        f
    }

    /// This formatter, with colours or without.
    pub fn with_color(self, color: bool) -> (f: Self)
        ensures
            f@ == (FormatterView { color, ..self@ }),
    {
        MessageFormatter { color, ..self }
    }

    /// This formatter, with the time in the given format.
    pub fn with_timestamp_format(self, timestamp_format: TimestampFormat) -> (f: Self)
        ensures
            f@ == (FormatterView { timestamp_format, ..self@ }),
    {
        MessageFormatter { timestamp_format, ..self }
    }

    /// This formatter, with lines of at most so many columns; `None` is no
    /// limit.
    pub fn with_max_columns(self, max_columns: Option<usize>) -> (f: Self)
        ensures
            f@ == (FormatterView { max_columns, ..self@ }),
    {
        MessageFormatter { max_columns, ..self }
    }

    /// This formatter, with at most so many lines; `None` is no limit.
    pub fn with_max_lines(self, max_lines: Option<usize>) -> (f: Self)
        ensures
            f@ == (FormatterView { max_lines, ..self@ }),
    {
        MessageFormatter { max_lines, ..self }
    }

    /// This formatter, with the table of times and their texts in the time
    /// zone of the machine. A time that the table lacks is written as
    /// nothing where the format asks for local time.
    pub fn with_local_times(self, local_times: Vec<(i64, String)>) -> (f: Self)
        ensures
            f@ == (FormatterView { local_times: table_view(local_times@), ..self@ }),
    {
        MessageFormatter { local_times, ..self }
    }

    /// The line of a message whose time is written as `time`, as the
    /// sections that are shown of it, each with its paint.
    pub fn message_line(&self, message: &Message, time: &str, appendix: Option<String>) -> (line: Vec<
        (String, Paint),
    >)
        ensures
            section_views(line@) == line_sections(
                self@.color,
                column_limit(self@.max_columns),
                *message,
                time@,
                match appendix {
                    Some(a) => a@,
                    None => Seq::empty(),
                },
            ),
            !self@.color ==> all_plain(section_views(line@)),
    {
        let max_columns = match self.max_columns {
            Some(n) => n,
            None => usize::MAX,
        };
        let components = MessageComponents {
            state: message.state,
            content: message.content.clone(),
            mailbox: message.mailbox.as_str().to_owned(),
            time: time.to_owned(),
            appendix: match appendix {
                Some(a) => a,
                None => String::new(),
            },
        }.truncate(max_columns);
        let ghost c = components@;
        let mark = match components.state {
            State::Unread => "*",
            State::Read => " ",
            State::Archived => "-",
        };
        let mut before_mailbox = " ".to_owned();
        before_mailbox.append(components.content.as_str());
        before_mailbox.append(" [");
        let unread = match components.state {
            State::Unread => true,
            _ => false,
        };
        let mut line = TruncatedLine::new(max_columns);
        line.append(
            mark,
            if unread && self.color {
                Some(Paint::RedBold)
            } else {
                None
            },
        );
        line.append(before_mailbox.as_str(), None);
        line.append(
            components.mailbox.as_str(),
            if self.color {
                Some(Paint::GreenBold)
            } else {
                None
            },
        );
        line.append("] @ ", None);
        line.append(
            components.time.as_str(),
            if self.color {
                Some(Paint::Yellow)
            } else {
                None
            },
        );
        line.append(components.appendix.as_str(), None);
        proof {
            assert(line.sections() == message_sections(self.color, c));
            if !self.color {
                assert(all_plain(message_sections(false, c)));
                lemma_shown_paints(line.sections(), 0, line.columns());
            }
        }
        line.generate()
    }

    /// The line of a message whose time is written as `time`, without a
    /// line break at its end. Without colours the line is the sections of
    /// the message, cut to the columns of the formatter; with colours it is
    /// those of `message_line`, each in the colour of its paint as the
    /// terminal takes it.
    pub fn format_message_at(&self, message: &Message, time: &str, appendix: Option<String>) -> (line:
        String)
        ensures
            !self@.color ==> line@ == plain_line(
                column_limit(self@.max_columns),
                *message,
                time@,
                match appendix {
                    Some(a) => a@,
                    None => Seq::empty(),
                },
            ),
    {
        let sections = self.message_line(message, time, appendix);
        paint_sections(&sections)
    }

    /// The line of a message, without a line break at its end, with the
    /// time as of now: without colours, the line of `format_message_at`
    /// with the time as the format of the formatter writes it for a reader
    /// at some time.
    pub fn format_message(&self, message: &Message, appendix: Option<String>) -> (line: String)
        ensures
            !self@.color ==> exists|now: i64|
                line@ == plain_line(
                    column_limit(self@.max_columns),
                    *message,
                    #[trigger] time_text(
                        self@.timestamp_format,
                        message.timestamp,
                        now,
                        self@.local_times,
                    ),
                    match appendix {
                        Some(a) => a@,
                        None => Seq::empty(),
                    },
                ),
    {
        let now = current_time();
        let time = format_time(self.timestamp_format, message.timestamp, now, &self.local_times);
        proof {
            assert(time@ == time_text(
                self@.timestamp_format,
                message.timestamp,
                now,
                self@.local_times,
            ));
        }
        self.format_message_at(message, time.as_str(), appendix)
    }

    /// The word in the singular for a count of one, else in the plural.
    pub fn pluralize_word(word: Word, count: usize) -> (text: &'static str)
        ensures
            text@ == plural(word, count),
    {
        match word {
            Word::Mailbox => if count == 1 {
                "mailbox"
            } else {
                "mailboxes"
            },
            Word::Message => if count == 1 {
                "message"
            } else {
                "messages"
            },
        }
    }

    /// The names of the mailboxes that are not shown, in a few words.
    pub fn summarize_hidden_mailboxes(names: &Vec<String>) -> (text: String)
        ensures
            text@ == hidden_summary(names@.map_values(|n: String| n@)),
    {
        let count = names.len();
        let mut text = String::new();
        if count == 0 {
            return text;
        }
        text.append(names[0].as_str());
        if count == 1 {
            assert(text@ =~= names@[0]@);
        } else if count == 2 {
            text.append(" and ");
            text.append(names[1].as_str());
        } else if count == 3 {
            text.append(", ");
            text.append(names[1].as_str());
            text.append(", and ");
            text.append(names[2].as_str());
        } else {
            text.append(", ");
            text.append(names[1].as_str());
            text.append(", and ");
            text.append(format_u64((count - 2) as u64).as_str());
            text.append(" other ");
            text.append(Self::pluralize_word(Word::Mailbox, count - 2));
        }
        text
    }

    /// The messages by mailbox: one group for every mailbox, in the order
    /// in which the mailboxes first occur, each with its messages, the
    /// latest first.
    fn group_messages(messages: &Vec<Message>) -> (groups: Vec<MailboxGroup>)
        ensures
            group_views(groups@) == groups_of(messages@),
            forall|i: int| 0 <= i < groups@.len() ==> (#[trigger] groups@[i]).messages@.len() > 0,
            message_count(group_views(groups@)) == messages@.len(),
    {
        // The names, and the messages of every name in the order of the
        // list.
        let mut names: Vec<String> = Vec::new();
        let mut lists: Vec<Vec<Message>> = Vec::new();
        let mut i: usize = 0;
        while i < messages.len()
            invariant
                i <= messages.len(),
                listed(lists@) == i,
                names@.len() == lists@.len(),
                names@.len() == mailbox_names(messages@.take(i as int)).len(),
                forall|g: int|
                    0 <= g < names@.len() ==> (#[trigger] names@[g])@ == mailbox_names(
                        messages@.take(i as int),
                    )[g],
                forall|g: int|
                    0 <= g < lists@.len() ==> (#[trigger] lists@[g])@.len() > 0 && lists@[g]@
                        == in_mailbox(messages@.take(i as int), names@[g]@),
                forall|a: int, b: int|
                    0 <= a < b < names@.len() ==> (#[trigger] names@[a])@ != (#[trigger] names@[b])@,
            decreases messages.len() - i,
        {
            let message = &messages[i];
            let mut g: usize = 0;
            while g < names.len() && !same_text(names[g].as_str(), message.mailbox.as_str())
                invariant
                    g <= names@.len(),
                    forall|h: int| 0 <= h < g ==> (#[trigger] names@[h])@ != message.mailbox@,
                decreases names.len() - g,
            {
                g += 1;
            }
            let ghost seen = messages@.take(i as int);
            let ghost grown = messages@.take(i + 1);
            let ghost known = mailbox_names(seen);
            proof {
                assert(grown.drop_last() =~= seen);
                assert(grown.last() == *message);
            }
            let ghost lists_before = lists@;
            if g < names.len() {
                let mut list = clone_messages(&lists[g]);
                list.push(message.clone());
                lists.set(g, list);
                proof {
                    lemma_listed_update(lists_before, g as int, lists@[g as int]);
                    assert(lists@ =~= lists_before.update(g as int, lists@[g as int]));
                    assert(known[g as int] == message.mailbox@);
                    assert(known.contains(message.mailbox@));
                }
            } else {
                names.push(message.mailbox.as_str().to_owned());
                let mut list: Vec<Message> = Vec::new();
                list.push(message.clone());
                lists.push(list);
                proof {
                    assert(lists@.drop_last() =~= lists_before);
                    assert forall|h: int| 0 <= h < known.len() implies known[h]
                        != message.mailbox@ by {
                        assert(names@[h]@ == known[h]);
                    }
                    assert(!known.contains(message.mailbox@));
                    lemma_no_name_no_message(seen, message.mailbox@);
                    assert(in_mailbox(seen, message.mailbox@) =~= Seq::empty());
                    assert(lists@[g as int]@ =~= in_mailbox(grown, message.mailbox@));
                }
            }
            i += 1;
        }
        let mut groups: Vec<MailboxGroup> = Vec::new();
        let mut g: usize = 0;
        proof {
            assert(messages@.take(messages.len() as int) =~= messages@);
            assert(lists@.take(0) =~= Seq::empty());
            assert(group_views(groups@) =~= Seq::empty());
        }
        while g < names.len()
            invariant
                g <= names.len(),
                names@.len() == lists@.len(),
                groups@.len() == g,
                message_count(group_views(groups@)) == listed(lists@.take(g as int)),
                forall|h: int| 0 <= h < lists@.len() ==> (#[trigger] lists@[h])@.len() > 0,
                forall|h: int|
                    0 <= h < g ==> (#[trigger] groups@[h]).messages@.len() > 0 && groups@[h]@
                        == (GroupView {
                        name: names@[h]@,
                        messages: sorted_latest_first(lists@[h]@),
                    }),
            decreases names.len() - g,
        {
            let sorted = sort_latest_first(clone_messages(&lists[g]));
            proof {
                vstd::seq_lib::to_multiset_len(sorted@);
                vstd::seq_lib::to_multiset_len(lists@[g as int]@);
            }
            let ghost before = groups@;
            groups.push(MailboxGroup { name: names[g].clone(), messages: sorted });
            proof {
                assert(group_views(groups@).drop_last() =~= group_views(before));
                assert(group_views(groups@).last() == groups@[g as int]@);
                let t = lists@.take(g + 1);
                assert(t.drop_last() =~= lists@.take(g as int));
                assert(t.last() == lists@[g as int]);
            }
            g += 1;
        }
        proof {
            assert(group_views(groups@) =~= groups_of(messages@));
            assert(lists@.take(names.len() as int) =~= lists@);
        }
        groups
    }

    /// The groups in the order in which they are shown: the group with the
    /// latest message first, and of two with messages of the same time the
    /// one whose name comes first.
    fn sort_groups(groups: Vec<MailboxGroup>) -> (sorted: Vec<MailboxGroup>)
        requires
            forall|i: int| 0 <= i < groups@.len() ==> (#[trigger] groups@[i]).messages@.len() > 0,
        ensures
            sorted@.len() == groups@.len(),
            group_views(sorted@) == ordered_groups(group_views(groups@)),
            message_count(group_views(sorted@)) == message_count(group_views(groups@)),
            forall|i: int| 0 <= i < sorted@.len() ==> (#[trigger] sorted@[i]).messages@.len() > 0,
            forall|i: int, j: int|
                0 <= i < j < sorted@.len() ==> !group_before(
                    (#[trigger] sorted@[j])@,
                    (#[trigger] sorted@[i])@,
                ),
    {
        let ghost all = group_views(groups@);
        let mut rest = groups;
        let mut sorted: Vec<MailboxGroup> = Vec::new();
        proof {
            assert(all.skip(all.len() as int) =~= Seq::empty());
            assert(group_views(sorted@) =~= Seq::empty());
        }
        while rest.len() > 0
            invariant
                rest@.len() <= all.len(),
                sorted@.len() + rest@.len() == all.len(),
                message_count(group_views(sorted@)) + message_count(group_views(rest@))
                    == message_count(all),
                group_views(rest@) == all.take(rest@.len() as int),
                group_views(sorted@) == ordered_groups(all.skip(rest@.len() as int)),
                forall|i: int| 0 <= i < rest@.len() ==> (#[trigger] rest@[i]).messages@.len() > 0,
                forall|i: int|
                    0 <= i < sorted@.len() ==> (#[trigger] sorted@[i]).messages@.len() > 0,
                forall|i: int, j: int|
                    0 <= i < j < sorted@.len() ==> !group_before(
                        (#[trigger] sorted@[j])@,
                        (#[trigger] sorted@[i])@,
                    ),
            decreases rest.len(),
        {
            let ghost rest_before = rest@;
            let group = match rest.pop() {
                Some(group) => group,
                None => {
                    return sorted;
                },
            };
            let ghost k = rest@.len() as int;
            let ghost views = group_views(sorted@);
            proof {
                assert(rest@ =~= rest_before.drop_last());
                assert(group == rest_before[k]);
                assert(group_views(rest_before)[k] == group@);
                assert(group_views(rest_before).drop_last() =~= group_views(rest@));
                assert(group_views(rest_before).last() == group@);
                assert(all[k] == group@);
                assert(group_views(rest@) =~= all.take(k));
                assert(all.skip(k).skip(1) =~= all.skip(k + 1));
                assert(all.skip(k)[0] == all[k]);
            }
            // The place before the first group that is shown after it.
            let mut p: usize = 0;
            while p < sorted.len() && !shown_before(&group, &sorted[p])
                invariant
                    p <= sorted@.len(),
                    views == group_views(sorted@),
                    group.messages@.len() > 0,
                    forall|i: int|
                        0 <= i < sorted@.len() ==> (#[trigger] sorted@[i]).messages@.len() > 0,
                    group_place(views, group@, 0) == group_place(views, group@, p as int),
                    forall|q: int| 0 <= q < p ==> !group_before(group@, (#[trigger] sorted@[q])@),
                decreases sorted.len() - p,
            {
                assert(views[p as int] == sorted@[p as int]@);
                p += 1;
            }
            let ghost before = sorted@;
            proof {
                if p < sorted@.len() {
                    assert(views[p as int] == sorted@[p as int]@);
                }
                assert(group_place(views, group@, 0) == p);
            }
            sorted.insert(p, group);
            proof {
                lemma_count_insert(views, p as int, group@);
                let after = sorted@;
                assert(after =~= before.insert(p as int, group));
                assert(group_views(after) =~= views.insert(p as int, group@));
                assert forall|i: int| 0 <= i < after.len() implies (#[trigger] after[i]).messages@.len()
                    > 0 by {
                    if i < p {
                        assert(after[i] == before[i]);
                    } else if i > p {
                        assert(after[i] == before[i - 1]);
                    }
                }
                assert forall|i: int, j: int| 0 <= i < j < after.len() implies !group_before(
                    (#[trigger] after[j])@,
                    (#[trigger] after[i])@,
                ) by {
                    if j < p {
                        assert(after[i] == before[i] && after[j] == before[j]);
                    } else if j == p {
                        assert(after[i] == before[i]);
                    } else if i < p {
                        assert(after[i] == before[i] && after[j] == before[j - 1]);
                    } else if i == p {
                        assert(after[j] == before[j - 1]);
                        if j - 1 == p {
                            lemma_group_one_way(group@, before[p as int]@);
                        } else {
                            assert(!group_before(before[j - 1]@, before[p as int]@));
                            lemma_group_order(group@, before[p as int]@, before[j - 1]@);
                        }
                    } else {
                        assert(after[i] == before[i - 1] && after[j] == before[j - 1]);
                    }
                }
            }
        }
        proof {
            assert(all.skip(0) =~= all);
        }
        sorted
    }

    /// The number of messages of every group.
    fn group_sizes(groups: &Vec<MailboxGroup>) -> (sizes: Vec<usize>)
        ensures
            counts(sizes@) == sizes_of(group_views(groups@)),
            total(counts(sizes@)) == message_count(group_views(groups@)),
    {
        let ghost views = group_views(groups@);
        let mut sizes: Vec<usize> = Vec::new();
        let mut g: usize = 0;
        proof {
            assert(counts(sizes@) =~= Seq::empty());
            assert(views.take(0) =~= Seq::empty());
        }
        while g < groups.len()
            invariant
                g <= groups@.len(),
                sizes@.len() == g,
                views == group_views(groups@),
                forall|h: int| 0 <= h < g ==> sizes@[h] == (#[trigger] groups@[h]).messages@.len(),
                total(counts(sizes@)) == message_count(views.take(g as int)),
            decreases groups.len() - g,
        {
            let ghost before = sizes@;
            sizes.push(groups[g].messages.len());
            proof {
                assert(counts(sizes@).drop_last() =~= counts(before));
                let t = views.take(g + 1);
                assert(t.drop_last() =~= views.take(g as int));
                assert(t.last() == groups@[g as int]@);
            }
            g += 1;
        }
        proof {
            assert(counts(sizes@) =~= sizes_of(group_views(groups@)));
            assert(views.take(groups@.len() as int) =~= views);
        }
        sizes
    }

    /// The lines of a mailbox of which the first `given` messages are
    /// shown. The last line tells of the messages that are not shown.
    fn format_group(&self, group: &MailboxGroup, given: usize, now: i64) -> (lines: Vec<
        Vec<(String, Paint)>,
    >)
        requires
            given <= group.messages@.len(),
        ensures
            line_views(lines@) == group_lines(self@, group@.messages, given as nat, now, given as nat),
            !self@.color ==> all_lines_plain(line_views(lines@)),
            lines@.len() == given,
    {
        let hidden = group.messages.len() - given;
        let mut lines: Vec<Vec<(String, Paint)>> = Vec::new();
        let mut index: usize = 0;
        assert(line_views(lines@) =~= group_lines(self@, group@.messages, given as nat, now, 0));
        while index < given
            invariant
                index <= given <= group.messages@.len(),
                hidden == group.messages@.len() - given,
                lines@.len() == index,
                line_views(lines@) == group_lines(
                    self@,
                    group@.messages,
                    given as nat,
                    now,
                    index as nat,
                ),
                !self@.color ==> all_lines_plain(line_views(lines@)),
            decreases given - index,
        {
            let message = &group.messages[index];
            let hint = if hidden > 0 && index == given - 1 {
                let mut hint = " (+".to_owned();
                hint.append(format_u64(hidden as u64).as_str());
                hint.append(" older ");
                hint.append(Self::pluralize_word(Word::Message, hidden));
                hint.append(")");
                Some(hint)
            } else {
                None
            };
            let time = format_time(self.timestamp_format, message.timestamp, now, &self.local_times);
            let line = self.message_line(message, time.as_str(), hint);
            let ghost before = lines@;
            lines.push(line);
            proof {
                assert(line_views(lines@) =~= line_views(before).push(section_views(line@)));
            }
            index += 1;
        }
        lines
    }

    /// The line on the groups from the group `from` on, which are not
    /// shown; no line where there is no such group.
    fn format_others(groups: &Vec<MailboxGroup>, from: usize) -> (lines: Vec<Vec<(String, Paint)>>)
        requires
            from <= groups@.len(),
        ensures
            line_views(lines@) == others_lines(group_views(groups@).skip(from as int)),
            all_lines_plain(line_views(lines@)),
            lines@.len() == (if from == groups@.len() {
                0nat
            } else {
                1nat
            }),
    {
        let ghost views = group_views(groups@);
        let ghost hidden = views.skip(from as int);
        let mut lines: Vec<Vec<(String, Paint)>> = Vec::new();
        if from == groups.len() {
            assert(line_views(lines@) =~= others_lines(hidden));
            return lines;
        }
        let mut names: Vec<String> = Vec::new();
        let mut hidden_messages: u128 = 0;
        let mut h: usize = from;
        proof {
            assert(views.subrange(from as int, h as int) =~= Seq::empty());
        }
        while h < groups.len()
            invariant
                from <= h <= groups@.len(),
                views == group_views(groups@),
                hidden_messages <= (h - from) * usize::MAX,
                hidden_messages == message_count(views.subrange(from as int, h as int)),
                names@.len() == h - from,
                forall|j: int| 0 <= j < names@.len() ==> (#[trigger] names@[j])@ == views[from + j].name,
            decreases groups.len() - h,
        {
            names.push(groups[h].name.clone());
            assert((h - from) * usize::MAX + usize::MAX == (h + 1 - from) * usize::MAX)
                by (nonlinear_arith);
            assert((h - from) * usize::MAX <= usize::MAX * usize::MAX) by (nonlinear_arith)
                requires
                    0 <= h - from <= usize::MAX,
            ;
            hidden_messages = hidden_messages + groups[h].messages.len() as u128;
            proof {
                let grown = views.subrange(from as int, h + 1);
                assert(grown.drop_last() =~= views.subrange(from as int, h as int));
                assert(grown.last() == groups@[h as int]@);
            }
            h += 1;
        }
        let mut text = String::new();
        text.append("(+");
        text.append(format_u128(hidden_messages).as_str());
        text.append(" older messages in ");
        text.append(Self::summarize_hidden_mailboxes(&names).as_str());
        text.append(")");
        let mut line: Vec<(String, Paint)> = Vec::new();
        line.push((text, Paint::Plain));
        lines.push(line);
        proof {
            assert(views.subrange(from as int, groups@.len() as int) =~= hidden);
            assert(names@.map_values(|n: String| n@) =~= names_of(hidden));
            assert(section_views(line@) =~= others_lines(hidden)[0]);
            assert(line_views(lines@) =~= others_lines(hidden));
        }
        lines
    }

    /// The lines of the messages as sections, each section with its paint,
    /// for a reader at the time `now`, as `messages_lines` says: grouped
    /// by mailbox, the mailbox with the latest message first, within the
    /// lines of the formatter, with a note where not all is shown.
    pub fn format_lines_at(&self, messages: &Vec<Message>, now: i64) -> (lines: Vec<
        Vec<(String, Paint)>,
    >)
        ensures
            line_views(lines@) == messages_lines(self@, messages@, now),
            !self@.color ==> all_lines_plain(line_views(lines@)),
            messages@.len() == 0 ==> lines@.len() == 0,
            self@.max_lines != Some(0usize) ==> lines@.len() == line_limit(
                self@.max_lines,
                messages@.len(),
            ),
    {
        let groups = Self::group_messages(messages);
        let groups = Self::sort_groups(groups);
        let count = messages.len();
        let limit = match self.max_lines {
            Some(limit) => if limit < count {
                limit
            } else {
                count
            },
            None => count,
        };
        let sizes = Self::group_sizes(&groups);
        let given = if groups.len() > limit {
            one_each(groups.len())
        } else {
            allot_lines(&sizes, limit)
        };
        // Where not every mailbox gets a line, one line is kept for the
        // note on the others.
        let displayed = if groups.len() <= limit {
            groups.len()
        } else if limit == 0 {
            0
        } else {
            limit - 1
        };
        let ghost views = group_views(groups@);
        let ghost portions = shares(sizes_of(views), limit as nat);
        proof {
            assert(counts(sizes@).len() == sizes@.len());
            assert(counts(given@).take(0) =~= Seq::empty());
            assert forall|h: int| 0 <= h < groups@.len() implies (#[trigger] given@[h]) == portions[h]
                && given@[h] <= groups@[h].messages@.len() by {
                assert(counts(sizes@)[h] == sizes_of(views)[h]);
                assert(views[h] == groups@[h]@);
            }
        }
        let mut lines: Vec<Vec<(String, Paint)>> = Vec::new();
        let mut g: usize = 0;
        assert(line_views(lines@) =~= groups_lines(self@, views, portions, now, 0));
        while g < displayed
            invariant
                g <= displayed <= groups@.len(),
                views == group_views(groups@),
                given@.len() == groups@.len(),
                portions.len() == groups@.len(),
                forall|h: int|
                    0 <= h < groups@.len() ==> (#[trigger] given@[h]) == portions[h] && given@[h]
                        <= groups@[h].messages@.len(),
                displayed == 0 ==> lines@.len() == 0,
                lines@.len() == total(counts(given@).take(g as int)),
                line_views(lines@) == groups_lines(self@, views, portions, now, g as nat),
                !self@.color ==> all_lines_plain(line_views(lines@)),
            decreases displayed - g,
        {
            assert(views[g as int] == groups@[g as int]@);
            let mut more = self.format_group(&groups[g], given[g], now);
            let ghost before = lines@;
            let ghost added = more@;
            lines.append(&mut more);
            proof {
                assert(line_views(lines@) =~= line_views(before) + line_views(added));
                let t = counts(given@).take(g + 1);
                assert(t.drop_last() =~= counts(given@).take(g as int));
                assert(t.last() == given@[g as int]);
            }
            g += 1;
        }
        proof {
            let shown = counts(given@).take(displayed as int);
            if groups@.len() > limit {
                lemma_total_ones(shown);
            } else {
                assert(shown =~= counts(given@));
            }
        }
        let mut note = Self::format_others(&groups, displayed);
        let ghost before = lines@;
        let ghost added = note@;
        lines.append(&mut note);
        proof {
            assert(line_views(lines@) =~= line_views(before) + line_views(added));
        }
        lines
    }

    /// The lines of the messages, each with a line break at its end, for a
    /// reader at the time `now`: the lines of `format_lines_at`, each
    /// section in the colour of its paint as the terminal takes it.
    /// Without colours the text is that of the sections. No messages give
    /// no text.
    pub fn format_messages_at(&self, messages: &Vec<Message>, now: i64) -> (text: String)
        ensures
            messages@.len() == 0 ==> text@.len() == 0,
            !self@.color ==> text@ == messages_text(self@, messages@, now),
    {
        let lines = self.format_lines_at(messages, now);
        proof {
            if !self@.color {
                assert(self@ == (FormatterView { color: false, ..self@ }));
            }
        }
        paint_lines(&lines)
    }

    /// The lines of the messages as of now, each with a line break at its
    /// end. No messages give no text; without colours the text is that for
    /// a reader at some time.
    pub fn format_messages(&self, messages: &Vec<Message>) -> (text: String)
        ensures
            messages@.len() == 0 ==> text@.len() == 0,
            !self@.color ==> exists|now: i64|
                text@ == #[trigger] messages_text(self@, messages@, now),
    {
        self.format_messages_at(messages, current_time())
    }
}

/// The lines as text, each section in the colour of its paint and each
/// line with a line break at its end. Where no section is coloured, the
/// text is the texts of the sections; of a coloured section the text
/// depends on the terminal.
pub fn paint_lines(lines: &Vec<Vec<(String, Paint)>>) -> (text: String)
    ensures
        all_lines_plain(line_views(lines@)) ==> text@ == lines_text(line_views(lines@)),
        lines@.len() == 0 ==> text@.len() == 0,
{
    let ghost views = line_views(lines@);
    let mut text = String::new();
    let mut i: usize = 0;
    assert(views.take(0) =~= Seq::empty());
    while i < lines.len()
        invariant
            i <= lines.len(),
            views == line_views(lines@),
            all_lines_plain(views) ==> text@ == lines_text(views.take(i as int)),
            lines@.len() == 0 ==> text@.len() == 0,
        decreases lines.len() - i,
    {
        let line = paint_sections(&lines[i]);
        text.append(line.as_str());
        text.append("\n");
        proof {
            let t = views.take(i + 1);
            assert(t.drop_last() =~= views.take(i as int));
            assert(t.last() == views[i as int]);
            assert(views[i as int] == section_views(lines@[i as int]@));
        }
        i += 1;
    }
    assert(views.take(lines.len() as int) =~= views);
    text
}

/// Whether the group `a` is shown before the group `b`.
fn shown_before(a: &MailboxGroup, b: &MailboxGroup) -> (r: bool)
    requires
        a.messages@.len() > 0,
        b.messages@.len() > 0,
    ensures
        r == group_before(a@, b@),
{
    let first = a.messages[0].timestamp;
    let second = b.messages[0].timestamp;
    if first != second {
        first > second
    } else {
        let x = chars_of(a.name.as_str());
        let y = chars_of(b.name.as_str());
        chars_lt(&x, &y)
    }
}

/// One line for every one of `count` groups.
fn one_each(count: usize) -> (given: Vec<usize>)
    ensures
        given@.len() == count,
        forall|i: int| 0 <= i < count ==> given@[i] == 1,
{
    let mut given: Vec<usize> = Vec::new();
    let mut i: usize = 0;
    while i < count
        invariant
            i <= count,
            given@.len() == i,
            forall|j: int| 0 <= j < i ==> given@[j] == 1,
        decreases count - i,
    {
        given.push(1);
        i += 1;
    }
    given
}

/// The lines that groups of the given sizes get, of `lines` lines in all:
/// one line to every group that has a message without one, in order, round
/// after round.
fn allot_lines(sizes: &Vec<usize>, lines: usize) -> (given: Vec<usize>)
    ensures
        given@.len() == sizes@.len(),
        allotted(counts(sizes@), lines as nat).len() == sizes@.len(),
        forall|i: int|
            0 <= i < given@.len() ==> (#[trigger] given@[i]) == allotted(
                counts(sizes@),
                lines as nat,
            )[i] && given@[i] <= sizes@[i],
        total(counts(given@)) == (if lines <= total(counts(sizes@)) {
            lines as nat
        } else {
            total(counts(sizes@))
        }),
{
    let ghost all = allotted(counts(sizes@), lines as nat);
    let mut given: Vec<usize> = Vec::new();
    let mut i: usize = 0;
    assert(counts(given@) =~= Seq::empty());
    while i < sizes.len()
        invariant
            i <= sizes@.len(),
            given@.len() == i,
            forall|j: int| 0 <= j < i ==> given@[j] == 0,
            total(counts(given@)) == 0,
        decreases sizes.len() - i,
    {
        let ghost before = given@;
        given.push(0);
        proof {
            assert(counts(given@).drop_last() =~= counts(before));
        }
        i += 1;
    }
    proof {
        lemma_allotted_len(counts(sizes@), lines as nat);
        assert(less(counts(sizes@), counts(given@)) =~= counts(sizes@));
    }
    let mut line: usize = 0;
    let mut progress = true;
    while progress
        invariant
            given@.len() == sizes@.len(),
            all == allotted(counts(sizes@), lines as nat),
            all.len() == sizes@.len(),
            line <= lines,
            line == total(counts(given@)),
            forall|i: int| 0 <= i < given@.len() ==> (#[trigger] given@[i]) <= sizes@[i],
            !progress ==> line == lines || (forall|i: int|
                0 <= i < given@.len() ==> (#[trigger] given@[i]) == sizes@[i]),
            progress ==> forall|i: int|
                0 <= i < given@.len() ==> (#[trigger] given@[i]) + allotted(
                    less(counts(sizes@), counts(given@)),
                    (lines - line) as nat,
                )[i] == all[i],
            !progress ==> forall|i: int| 0 <= i < given@.len() ==> (#[trigger] given@[i]) == all[i],
        decreases lines - line + (if progress { 1int } else { 0int }),
    {
        let ghost given_before = given@;
        let ghost line_before = line;
        let ghost room = less(counts(sizes@), counts(given@));
        let ghost left = (lines - line) as nat;
        progress = false;
        let mut g: usize = 0;
        proof {
            assert(room.take(0) =~= Seq::empty());
        }
        while g < sizes.len()
            invariant
                g <= sizes@.len(),
                given@.len() == sizes@.len(),
                given_before.len() == sizes@.len(),
                room == less(counts(sizes@), counts(given_before)),
                left == lines - line_before,
                line_before <= line <= lines,
                line == total(counts(given@)),
                progress == (line > line_before),
                !progress ==> line == lines || (forall|i: int|
                    0 <= i < g ==> (#[trigger] given@[i]) == sizes@[i]),
                forall|i: int| 0 <= i < given@.len() ==> (#[trigger] given@[i]) <= sizes@[i],
                forall|i: int| 0 <= i < given_before.len() ==> (#[trigger] given_before[i]) <= sizes@[i],
                one_round(room.take(g as int), left).len() == g,
                line == line_before + total(one_round(room.take(g as int), left)),
                forall|i: int|
                    0 <= i < g ==> (#[trigger] given@[i]) == given_before[i] + one_round(
                        room.take(g as int),
                        left,
                    )[i],
                forall|i: int| g <= i < given@.len() ==> (#[trigger] given@[i]) == given_before[i],
            decreases sizes.len() - g,
        {
            let ghost head = one_round(room.take(g as int), left);
            if given[g] < sizes[g] && line < lines {
                let ghost before = given@;
                given.set(g, given[g] + 1);
                proof {
                    assert(counts(given@) =~= counts(before).update(
                        g as int,
                        (before[g as int] + 1) as nat,
                    ));
                    lemma_total_update(counts(before), g as int, (before[g as int] + 1) as nat);
                }
                line += 1;
                progress = true;
            }
            proof {
                let next = room.take(g + 1);
                assert(next.drop_last() =~= room.take(g as int));
                assert(next.last() == room[g as int]);
                let grown = one_round(next, left);
                assert(grown.drop_last() =~= head);
            }
            g += 1;
        }
        proof {
            assert(room.take(sizes@.len() as int) =~= room);
            let first = one_round(room, left);
            let after = allotted(room, left);
            if progress {
                let room_after = less(counts(sizes@), counts(given@));
                assert(room_after =~= less(room, first));
                lemma_allotted_len(less(room, first), (left - total(first)) as nat);
                assert forall|i: int| 0 <= i < given@.len() implies (#[trigger] given@[i]) + allotted(
                    room_after,
                    (lines - line) as nat,
                )[i] == all[i] by {
                    assert(given_before[i] + after[i] == all[i]);
                }
            } else {
                assert forall|i: int| 0 <= i < given@.len() implies (#[trigger] given@[i])
                    == all[i] by {
                    assert(given_before[i] + after[i] == all[i]);
                }
            }
        }
    }
    proof {
        lemma_total_le(counts(given@), counts(sizes@));
        if line != lines {
            assert(counts(given@) =~= counts(sizes@));
        }
    }
    given
}

/// The number of messages in the lists.
spec fn listed(lists: Seq<Vec<Message>>) -> nat
    decreases lists.len(),
{
    if lists.len() == 0 {
        0
    } else {
        listed(lists.drop_last()) + lists.last()@.len()
    }
}

/// A list that grows by one message makes the lists one message more.
proof fn lemma_listed_update(lists: Seq<Vec<Message>>, g: int, list: Vec<Message>)
    requires
        0 <= g < lists.len(),
        list@.len() == lists[g]@.len() + 1,
    ensures
        listed(lists.update(g, list)) == listed(lists) + 1,
    decreases lists.len(),
{
    let after = lists.update(g, list);
    if g == lists.len() - 1 {
        assert(after.drop_last() =~= lists.drop_last());
    } else {
        assert(after.drop_last() =~= lists.drop_last().update(g, list));
        lemma_listed_update(lists.drop_last(), g, list);
    }
}

/// A group more makes the groups as many messages more as it holds.
proof fn lemma_count_insert(groups: Seq<GroupView>, p: int, group: GroupView)
    requires
        0 <= p <= groups.len(),
    ensures
        message_count(groups.insert(p, group)) == message_count(groups) + group.messages.len(),
    decreases groups.len(),
{
    let after = groups.insert(p, group);
    if p == groups.len() {
        assert(after.drop_last() =~= groups);
    } else {
        assert(after.drop_last() =~= groups.drop_last().insert(p, group));
        assert(after.last() == groups.last());
        lemma_count_insert(groups.drop_last(), p, group);
    }
}

/// As many ones sum to their number.
proof fn lemma_total_ones(numbers: Seq<nat>)
    requires
        forall|i: int| 0 <= i < numbers.len() ==> numbers[i] == 1,
    ensures
        total(numbers) == numbers.len(),
    decreases numbers.len(),
{
    if numbers.len() > 0 {
        lemma_total_ones(numbers.drop_last());
    }
}

/// The sum of numbers of which one was put in place of another.
proof fn lemma_total_update(numbers: Seq<nat>, at: int, value: nat)
    requires
        0 <= at < numbers.len(),
    ensures
        total(numbers.update(at, value)) == total(numbers) - numbers[at] + value,
    decreases numbers.len(),
{
    let after = numbers.update(at, value);
    if at == numbers.len() - 1 {
        assert(after.drop_last() =~= numbers.drop_last());
    } else {
        assert(after.drop_last() =~= numbers.drop_last().update(at, value));
        lemma_total_update(numbers.drop_last(), at, value);
    }
}

/// Numbers that are no larger, each at its place, have no larger sum.
proof fn lemma_total_le(a: Seq<nat>, b: Seq<nat>)
    requires
        a.len() == b.len(),
        forall|i: int| 0 <= i < a.len() ==> a[i] <= b[i],
    ensures
        total(a) <= total(b),
    decreases a.len(),
{
    if a.len() > 0 {
        lemma_total_le(a.drop_last(), b.drop_last());
    }
}

/// A mailbox that is not among the names of the messages holds none of
/// them.
proof fn lemma_no_name_no_message(messages: Seq<Message>, name: Seq<char>)
    requires
        !mailbox_names(messages).contains(name),
    ensures
        in_mailbox(messages, name).len() == 0,
    decreases messages.len(),
{
    if messages.len() > 0 {
        let names = mailbox_names(messages.drop_last());
        let last = messages.last().mailbox@;
        if names.contains(last) {
        } else {
            let all = names.push(last);
            assert(all[names.len() as int] == last);
            if names.contains(name) {
                let i = choose|i: int| 0 <= i < names.len() && names[i] == name;
                assert(all[i] == name);
            }
        }
        lemma_no_name_no_message(messages.drop_last(), name);
    }
}

/// A round gives every group one line or none, and there are as many
/// entries as groups.
proof fn lemma_one_round_len(room: Seq<nat>, lines: nat)
    ensures
        one_round(room, lines).len() == room.len(),
    decreases room.len(),
{
    if room.len() > 0 {
        lemma_one_round_len(room.drop_last(), lines);
    }
}

/// Every group has its number of lines.
proof fn lemma_allotted_len(sizes: Seq<nat>, lines: nat)
    ensures
        allotted(sizes, lines).len() == sizes.len(),
{
    lemma_one_round_len(sizes, lines);
}

/// The order in which groups are shown is transitive where it is not
/// strict either way.
proof fn lemma_group_order(a: GroupView, b: GroupView, c: GroupView)
    requires
        group_before(a, b),
        !group_before(c, b),
    ensures
        !group_before(c, a),
{
    if group_before(c, a) {
        if latest(c) == latest(a) && latest(a) == latest(b) {
            lemma_lex_lt_transitive(c.name, a.name, b.name);
        }
    }
}

/// Of two groups at most one is shown before the other.
proof fn lemma_group_one_way(a: GroupView, b: GroupView)
    requires
        group_before(a, b),
    ensures
        !group_before(b, a),
{
    lemma_lex_lt_total(a.name, b.name);
}

} // verus!
