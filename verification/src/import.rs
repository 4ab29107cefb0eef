//! Messages read from text: one message on every line, as fields between
//! tabs or as a JSON object. The `csv` crate cuts the text into records
//! and fields, the `serde_json` crate reads the objects; what a record or
//! an object stands for is decided here.

use vstd::prelude::*;
use csv::ReaderBuilder;
use crate::cli::ImportMessageFormat;
use crate::separated::{join_by, join_with, split_by, split_ranges_by};
use crate::mailbox::{Mailbox, MailboxError, mailbox_error};
use crate::message::{NewMessage, State};
use crate::query::word_state;
use crate::text::{same_text, string_of_range};

verus! {

/// Why a line is no message.
#[derive(Clone, Copy, Debug, PartialEq, Eq, Structural)]
pub enum ImportError {
    /// The record has fewer than two fields.
    FieldCount,
    /// The record cannot be read.
    Record,
    /// The line is no JSON object.
    Json,
    /// A field of the object is neither text nor, for the state, null.
    FieldKind,
    /// The object has a field other than `mailbox`, `content` and `state`.
    UnknownField,
    /// The object lacks `mailbox` or `content`.
    MissingField,
    /// The mailbox is no mailbox path.
    Mailbox(MailboxError),
    /// The state names no state.
    State,
}

/// The value of a field of a JSON object, as far as it matters.
#[derive(Debug, PartialEq, Eq)]
pub enum JsonField {
    Text(String),
    Null,
    /// A number, a truth value, a list or an object.
    Other,
}

/// The value of a field of a JSON object as a mathematical value.
pub enum JsonFieldView {
    Text(Seq<char>),
    Null,
    Other,
}

impl View for JsonField {
    type V = JsonFieldView;

    open spec fn view(&self) -> JsonFieldView {
        match self {
            JsonField::Text(t) => JsonFieldView::Text(t@),
            JsonField::Null => JsonFieldView::Null,
            JsonField::Other => JsonFieldView::Other,
        }
    }
}

/// The fields of the JSON object that a line holds, as the `serde_json`
/// crate reads them: every name once, with its value; `None` where the
/// line is no JSON object.
pub uninterp spec fn json_fields(line: Seq<char>) -> Option<Seq<(Seq<char>, JsonFieldView)>>;

/// The views of the fields of an object.
pub open spec fn field_views(fields: Seq<(String, JsonField)>) -> Seq<(Seq<char>, JsonFieldView)> {
    fields.map_values(|f: (String, JsonField)| (f.0@, f.1@))
}

/// Reads a JSON object.
///
/// Trusted: `from_str` of the `serde_json` crate, for a map from names to
/// values, and the iteration over that map. The claim is only that the
/// fields, and whether there are any, are a function of the line, named
/// `json_fields`.
#[verifier::external_body]
fn json_object(line: &str) -> (r: Option<Vec<(String, JsonField)>>)
    ensures
        match r {
            Some(fields) => json_fields(line@) == Some(field_views(fields@)),
            None => json_fields(line@) is None,
        },
{
    let object: serde_json::Map<String, serde_json::Value> = serde_json::from_str(line).ok()?;
    Some(object.into_iter().map(|(name, value)| (name, match value {
        serde_json::Value::String(text) => JsonField::Text(text),
        serde_json::Value::Null => JsonField::Null,
        serde_json::Value::Bool(_) => JsonField::Other,
        serde_json::Value::Number(_) => JsonField::Other,
        serde_json::Value::Array(_) => JsonField::Other,
        serde_json::Value::Object(_) => JsonField::Other,
    })).collect())
}

/// A message that is about to be stored, as a mathematical value.
pub struct NewMessageView {
    pub mailbox: Seq<char>,
    pub content: Seq<char>,
    pub state: Option<State>,
}

/// The message that a mailbox, a content and the word of a state stand
/// for: the mailbox must be a mailbox path, and the word, where there is
/// one, must name a state.
pub open spec fn message_of(mailbox: Seq<char>, content: Seq<char>, state: Option<Seq<char>>) -> Result<
    NewMessageView,
    ImportError,
> {
    match mailbox_error(mailbox) {
        Some(e) => Err(ImportError::Mailbox(e)),
        None => match state {
            None => Ok(NewMessageView { mailbox, content, state: None }),
            Some(word) => match word_state(word) {
                Some(s) => Ok(NewMessageView { mailbox, content, state: Some(s) }),
                None => Err(ImportError::State),
            },
        },
    }
}

/// The records of a text of fields between tabs, as the `csv` crate reads
/// them: the fields of every record, or `None` for a record that the crate
/// cannot read.
pub uninterp spec fn tsv_parsed(text: Seq<char>) -> Seq<Option<Seq<Seq<char>>>>;

/// The texts as mathematical values.
pub open spec fn text_views(texts: Seq<String>) -> Seq<Seq<char>> {
    texts.map_values(|text: String| text@)
}

/// The records as mathematical values.
pub open spec fn record_views(records: Seq<Option<Vec<String>>>) -> Seq<Option<Seq<Seq<char>>>> {
    records.map_values(
        |record: Option<Vec<String>>|
            match record {
                Some(fields) => Some(text_views(fields@)),
                None => None,
            },
    )
}

/// Cuts a text of fields between tabs into its records and their fields.
/// A field in double quotes may hold tabs and line breaks.
///
/// Trusted: `ReaderBuilder` of the `csv` crate, set to read no header, to
/// take records of any number of fields and to cut at tabs, with its
/// `from_reader` and `into_records`, and the fields of every record. The
/// claim is only that the records are a function of the text, named
/// `tsv_parsed`.
#[verifier::external_body]
fn tsv_records(text: &str) -> (records: Vec<Option<Vec<String>>>)
    ensures
        record_views(records@) == tsv_parsed(text@),
{
    ReaderBuilder::new()
        .has_headers(false)
        .flexible(true)
        .delimiter(b'\t')
        .from_reader(text.as_bytes())
        .into_records()
        .map(|record| record.ok().map(|fields| fields.iter().map(String::from).collect()))
        .collect()
}

/// The message that a record of fields stands for: the first field is the
/// mailbox, the second the content, and the third, where there is one and
/// it is not empty, the state. Fields after the third are not read.
pub open spec fn record_message(record: Option<Seq<Seq<char>>>) -> Result<NewMessageView, ImportError> {
    match record {
        None => Err(ImportError::Record),
        Some(fields) => if fields.len() < 2 {
            Err(ImportError::FieldCount)
        } else if fields.len() >= 3 && fields[2].len() > 0 {
            message_of(fields[0], fields[1], Some(fields[2]))
        } else {
            message_of(fields[0], fields[1], None)
        },
    }
}

/// What the fields of an object from position `from` on add to the
/// mailbox, the content and the state that were found before.
pub open spec fn object_message(
    fields: Seq<(Seq<char>, JsonFieldView)>,
    from: int,
    mailbox: Option<Seq<char>>,
    content: Option<Seq<char>>,
    state: Option<Seq<char>>,
) -> Result<NewMessageView, ImportError>
    decreases fields.len() - from,
{
    if from < 0 || from >= fields.len() {
        match (mailbox, content) {
            (Some(m), Some(c)) => message_of(m, c, state),
            _ => Err(ImportError::MissingField),
        }
    } else {
        let (name, value) = fields[from];
        if name == "mailbox"@ {
            match value {
                JsonFieldView::Text(t) => object_message(fields, from + 1, Some(t), content, state),
                _ => Err(ImportError::FieldKind),
            }
        } else if name == "content"@ {
            match value {
                JsonFieldView::Text(t) => object_message(fields, from + 1, mailbox, Some(t), state),
                _ => Err(ImportError::FieldKind),
            }
        } else if name == "state"@ {
            match value {
                JsonFieldView::Text(t) => object_message(fields, from + 1, mailbox, content, Some(t)),
                JsonFieldView::Null => object_message(fields, from + 1, mailbox, content, None),
                JsonFieldView::Other => Err(ImportError::FieldKind),
            }
        } else {
            Err(ImportError::UnknownField)
        }
    }
}

/// The message that a line with a JSON object stands for: the object has
/// the fields `mailbox` and `content`, both text, and may have the field
/// `state`, text or null, and no other field. Of a name that the object
/// holds twice, the value that comes last counts.
pub open spec fn json_message(line: Seq<char>) -> Result<NewMessageView, ImportError> {
    match json_fields(line) {
        None => Err(ImportError::Json),
        Some(fields) => object_message(fields, 0, None, None, None),
    }
}

/// A line without the carriage return at its end.
pub open spec fn without_return(line: Seq<char>) -> Seq<char> {
    if line.len() > 0 && line.last() == '\r' {
        line.drop_last()
    } else {
        line
    }
}

/// The lines that hold something, each without the carriage return at its
/// end, in their order.
pub open spec fn filled_lines(lines: Seq<Seq<char>>) -> Seq<Seq<char>>
    decreases lines.len(),
{
    if lines.len() == 0 {
        Seq::empty()
    } else {
        let line = without_return(lines.last());
        if line.len() == 0 {
            filled_lines(lines.drop_last())
        } else {
            filled_lines(lines.drop_last()).push(line)
        }
    }
}

/// What the text stands for: with JSON, the message or the error of
/// every line that holds something; with fields between tabs, the message
/// or the error of every record of those lines.
pub open spec fn expected_outcomes(text: Seq<char>, format: ImportMessageFormat) -> Seq<
    Result<NewMessageView, ImportError>,
> {
    let lines = filled_lines(split_by(text, '\n'));
    match format {
        ImportMessageFormat::Json => Seq::new(lines.len(), |i: int| json_message(lines[i])),
        ImportMessageFormat::Tsv => {
            let records = tsv_parsed(join_by(lines, '\n'));
            Seq::new(records.len(), |i: int| record_message(records[i]))
        },
    }
}

/// The outcome is the message or the error that was expected.
pub open spec fn outcome_is(
    outcome: Result<NewMessage, ImportError>,
    expected: Result<NewMessageView, ImportError>,
) -> bool {
    match (outcome, expected) {
        (Ok(m), Ok(v)) => m.mailbox@ == v.mailbox && m.content@ == v.content && m.state == v.state,
        (Err(e), Err(f)) => e == f,
        _ => false,
    }
}

fn build_message(mailbox: String, content: String, state: Option<String>) -> (r: Result<
    NewMessage,
    ImportError,
>)
    ensures
        outcome_is(
            r,
            message_of(
                mailbox@,
                content@,
                match state {
                    Some(s) => Some(s@),
                    None => None,
                },
            ),
        ),
{
    let mailbox = match Mailbox::new(mailbox) {
        Ok(m) => m,
        Err(e) => {
            return Err(ImportError::Mailbox(e));
        },
    };
    let state = match state {
        None => None,
        Some(word) => match State::from_word(word.as_str()) {
            Ok(s) => {
                proof {
                    crate::message::lemma_state_words_differ();
                }
                Some(s)
            },
            Err(_) => {
                return Err(ImportError::State);
            },
        },
    };
    Ok(NewMessage { mailbox, content, state })
}

/// The message that a record of fields stands for.
pub fn read_tsv_record(fields: &Vec<String>) -> (r: Result<NewMessage, ImportError>)
    ensures
        outcome_is(r, record_message(Some(text_views(fields@)))),
{
    if fields.len() < 2 {
        return Err(ImportError::FieldCount);
    }
    let mailbox = fields[0].clone();
    let content = fields[1].clone();
    let state = if fields.len() >= 3 && !fields[2].as_str().is_empty() {
        Some(fields[2].clone())
    } else {
        None
    };
    build_message(mailbox, content, state)
}

/// The message that the fields of a JSON object stand for.
pub fn read_json_fields(fields: Vec<(String, JsonField)>) -> (r: Result<NewMessage, ImportError>)
    ensures
        outcome_is(r, object_message(field_views(fields@), 0, None, None, None)),
{
    let ghost all = field_views(fields@);
    let mut mailbox: Option<String> = None;
    let mut content: Option<String> = None;
    let mut state: Option<String> = None;
    let mut i: usize = 0;
    while i < fields.len()
        invariant
            i <= fields.len(),
            all == field_views(fields@),
            object_message(all, 0, None, None, None) == object_message(
                all,
                i as int,
                match mailbox {
                    Some(t) => Some(t@),
                    None => None,
                },
                match content {
                    Some(t) => Some(t@),
                    None => None,
                },
                match state {
                    Some(t) => Some(t@),
                    None => None,
                },
            ),
        decreases fields.len() - i,
    {
        let name = fields[i].0.as_str();
        if same_text(name, "mailbox") {
            match &fields[i].1 {
                JsonField::Text(t) => {
                    mailbox = Some(t.clone());
                },
                _ => {
                    return Err(ImportError::FieldKind);
                },
            }
        } else if same_text(name, "content") {
            match &fields[i].1 {
                JsonField::Text(t) => {
                    content = Some(t.clone());
                },
                _ => {
                    return Err(ImportError::FieldKind);
                },
            }
        } else if same_text(name, "state") {
            match &fields[i].1 {
                JsonField::Text(t) => {
                    state = Some(t.clone());
                },
                JsonField::Null => {
                    state = None;
                },
                JsonField::Other => {
                    return Err(ImportError::FieldKind);
                },
            }
        } else {
            return Err(ImportError::UnknownField);
        }
        i += 1;
    }
    match (mailbox, content) {
        (Some(mailbox), Some(content)) => build_message(mailbox, content, state),
        _ => Err(ImportError::MissingField),
    }
}

/// The message that a line with a JSON object stands for.
pub fn read_json_line(line: &str) -> (r: Result<NewMessage, ImportError>)
    ensures
        outcome_is(r, json_message(line@)),
{
    match json_object(line) {
        Some(fields) => read_json_fields(fields),
        None => Err(ImportError::Json),
    }
}

/// The lines of a text that hold something, each without the carriage
/// return at its end, in their order.
pub fn filled_lines_of(text: &str) -> (filled: Vec<String>)
    ensures
        text_views(filled@) == filled_lines(split_by(text@, '\n')),
{
    let chars = crate::text::chars_of(text);
    let ranges = split_ranges_by(&chars, '\n');
    let ghost lines = split_by(chars@, '\n');
    let mut filled: Vec<String> = Vec::new();
    let mut i: usize = 0;
    assert(text_views(filled@) =~= filled_lines(lines.take(0)));
    while i < ranges.len()
        invariant
            i <= ranges.len(),
            chars@ == text@,
            lines == split_by(chars@, '\n'),
            ranges@.len() == lines.len(),
            forall|j: int|
                0 <= j < ranges@.len() ==> {
                    let (a, b) = #[trigger] ranges@[j];
                    a <= b <= chars@.len() && lines[j] == chars@.subrange(a as int, b as int)
                },
            text_views(filled@) == filled_lines(lines.take(i as int)),
        decreases ranges.len() - i,
    {
        let (a, b) = ranges[i];
        let end = if a < b && chars[b - 1] == '\r' {
            b - 1
        } else {
            b
        };
        let ghost before = filled@;
        proof {
            let t = lines.take(i + 1);
            assert(t.drop_last() =~= lines.take(i as int));
            assert(without_return(lines[i as int]) =~= chars@.subrange(a as int, end as int));
        }
        if a < end {
            filled.push(string_of_range(&chars, a, end));
            proof {
                assert(text_views(filled@) =~= text_views(before).push(
                    chars@.subrange(a as int, end as int),
                ));
            }
        }
        i += 1;
    }
    assert(lines.take(ranges.len() as int) =~= lines);
    filled
}

/// Reads the messages of a text. With JSON, every line that holds
/// something is one object. With fields between tabs, the lines that hold
/// something are cut into records, mostly one to a line. Returns, for
/// every such line or record in its order, the message or the reason why
/// it is none; one that is no message does not keep the others from being
/// read.
pub fn read_messages_stdin(text: &str, format: ImportMessageFormat) -> (outcomes: Vec<
    Result<NewMessage, ImportError>,
>)
    ensures
        outcomes@.len() == expected_outcomes(text@, format).len(),
        forall|i: int|
            0 <= i < outcomes@.len() ==> outcome_is(
                #[trigger] outcomes@[i],
                expected_outcomes(text@, format)[i],
            ),
{
    let lines = filled_lines_of(text);
    let mut outcomes: Vec<Result<NewMessage, ImportError>> = Vec::new();
    match format {
        ImportMessageFormat::Json => {
            let mut i: usize = 0;
            while i < lines.len()
                invariant
                    i <= lines.len(),
                    outcomes@.len() == i,
                    forall|k: int|
                        0 <= k < i ==> outcome_is(
                            #[trigger] outcomes@[k],
                            json_message(lines@[k]@),
                        ),
                decreases lines.len() - i,
            {
                outcomes.push(read_json_line(lines[i].as_str()));
                i += 1;
            }
            proof {
                assert forall|k: int| 0 <= k < outcomes@.len() implies outcome_is(
                    #[trigger] outcomes@[k],
                    expected_outcomes(text@, format)[k],
                ) by {
                    assert(text_views(lines@)[k] == lines@[k]@);
                }
            }
        },
        ImportMessageFormat::Tsv => {
            let joined = join_with(&lines, '\n');
            let records = tsv_records(joined.as_str());
            proof {
                assert(lines@.map_values(|t: String| t@) =~= text_views(lines@));
            }
            let mut i: usize = 0;
            while i < records.len()
                invariant
                    i <= records.len(),
                    outcomes@.len() == i,
                    forall|k: int|
                        0 <= k < i ==> outcome_is(
                            #[trigger] outcomes@[k],
                            record_message(record_views(records@)[k]),
                        ),
                decreases records.len() - i,
            {
                let outcome = match &records[i] {
                    Some(fields) => read_tsv_record(fields),
                    None => Err(ImportError::Record),
                };
                outcomes.push(outcome);
                i += 1;
            }
        },
    }
    outcomes
}

/// The messages among the outcomes, in their order.
pub open spec fn accepted(outcomes: Seq<Result<NewMessage, ImportError>>) -> Seq<NewMessage>
    decreases outcomes.len(),
{
    if outcomes.len() == 0 {
        Seq::empty()
    } else {
        match outcomes.last() {
            Ok(m) => accepted(outcomes.drop_last()).push(m),
            Err(_) => accepted(outcomes.drop_last()),
        }
    }
}

/// The messages among the outcomes, in their order.
pub fn accepted_messages(outcomes: Vec<Result<NewMessage, ImportError>>) -> (messages: Vec<NewMessage>)
    ensures
        messages@ == accepted(outcomes@),
{
    let mut messages: Vec<NewMessage> = Vec::new();
    let mut i: usize = 0;
    while i < outcomes.len()
        invariant
            i <= outcomes.len(),
            messages@ == accepted(outcomes@.take(i as int)),
        decreases outcomes.len() - i,
    {
        proof {
            let t = outcomes@.take(i + 1);
            assert(t.drop_last() =~= outcomes@.take(i as int));
        }
        match &outcomes[i] {
            Ok(message) => {
                messages.push(message.clone());
            },
            Err(_) => {},
        }
        i += 1;
    }
    assert(outcomes@.take(outcomes.len() as int) =~= outcomes@);
    messages
}

} // verus!
