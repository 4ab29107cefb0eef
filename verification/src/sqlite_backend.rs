//! The statements by which the operations of a store are asked of an
//! embedded SQL engine, and how its rows are read. Running the statements
//! is left to the engine.

use vstd::prelude::*;
use crate::condition::{Condition, where_of};
use crate::http_backend::Operation;
use crate::mailbox::{Mailbox, MailboxError, mailbox_error};
use crate::message::{MailboxInfo, Message, NewMessage, State, state_code};
use crate::store::{sort_latest_first, sorted_latest_first};

verus! {

/// The kind of a column.
#[derive(Clone, Copy, Debug, PartialEq, Eq, Structural)]
pub enum ColumnKind {
    Integer,
    DateTime,
    Text,
}

/// What a column holds where a row names nothing.
#[derive(Clone, Copy, Debug, PartialEq, Eq, Structural)]
pub enum ColumnDefault {
    /// Nothing is set.
    Unset,
    /// The time of the insert.
    CurrentTimestamp,
    /// The number.
    Integer(i32),
}

/// A column of the table of messages.
#[derive(Clone, Copy, Debug, PartialEq, Eq)]
pub struct Column {
    pub name: &'static str,
    pub kind: ColumnKind,
    pub not_null: bool,
    pub primary_key: bool,
    pub auto_increment: bool,
    pub default: ColumnDefault,
    /// A condition that every row must meet, in the words of the engine.
    pub check: Option<&'static str>,
}

/// The name of the table of messages.
pub const TABLE: &'static str = "message";

/// The columns of the table of messages: the id, which the engine hands
/// out and never hands out twice; the time of the insert; the mailbox and
/// the content, neither empty; and the state, 0 to 2, 0 unless named.
pub open spec fn message_columns() -> Seq<Column> {
    seq![
        Column {
            name: "id",
            kind: ColumnKind::Integer,
            not_null: true,
            primary_key: true,
            auto_increment: true,
            default: ColumnDefault::Unset,
            check: None,
        },
        Column {
            name: "timestamp",
            kind: ColumnKind::DateTime,
            not_null: false,
            primary_key: false,
            auto_increment: false,
            default: ColumnDefault::CurrentTimestamp,
            check: None,
        },
        Column {
            name: "mailbox",
            kind: ColumnKind::Text,
            not_null: true,
            primary_key: false,
            auto_increment: false,
            default: ColumnDefault::Unset,
            check: Some("CHECK (LENGTH(mailbox) > 0)"),
        },
        Column {
            name: "content",
            kind: ColumnKind::Text,
            not_null: true,
            primary_key: false,
            auto_increment: false,
            default: ColumnDefault::Unset,
            check: Some("CHECK (LENGTH(content) > 0)"),
        },
        Column {
            name: "state",
            kind: ColumnKind::Integer,
            not_null: true,
            primary_key: false,
            auto_increment: false,
            default: ColumnDefault::Integer(0),
            check: Some("CHECK (state >= 0 AND state <= 2)"),
        },
    ]
}

/// The columns of the table of messages.
pub fn message_table() -> (columns: Vec<Column>)
    ensures
        columns@ == message_columns(),
{
    let mut columns: Vec<Column> = Vec::new();
    columns.push(
        Column {
            name: "id",
            kind: ColumnKind::Integer,
            not_null: true,
            primary_key: true,
            auto_increment: true,
            default: ColumnDefault::Unset,
            check: None,
        },
    );
    columns.push(
        Column {
            name: "timestamp",
            kind: ColumnKind::DateTime,
            not_null: false,
            primary_key: false,
            auto_increment: false,
            default: ColumnDefault::CurrentTimestamp,
            check: None,
        },
    );
    columns.push(
        Column {
            name: "mailbox",
            kind: ColumnKind::Text,
            not_null: true,
            primary_key: false,
            auto_increment: false,
            default: ColumnDefault::Unset,
            check: Some("CHECK (LENGTH(mailbox) > 0)"),
        },
    );
    columns.push(
        Column {
            name: "content",
            kind: ColumnKind::Text,
            not_null: true,
            primary_key: false,
            auto_increment: false,
            default: ColumnDefault::Unset,
            check: Some("CHECK (LENGTH(content) > 0)"),
        },
    );
    columns.push(
        Column {
            name: "state",
            kind: ColumnKind::Integer,
            not_null: true,
            primary_key: false,
            auto_increment: false,
            default: ColumnDefault::Integer(0),
            check: Some("CHECK (state >= 0 AND state <= 2)"),
        },
    );
    columns
}

/// A row to insert: the mailbox, the content and the state code.
#[derive(Debug, PartialEq, Eq)]
pub struct InsertRow {
    pub mailbox: String,
    pub content: String,
    pub state: u32,
}

/// A statement for the engine.
#[derive(Debug)]
pub enum Statement {
    /// Insert the rows, in one statement, and return them.
    Insert(Vec<InsertRow>),
    /// Select the rows that meet the condition, the largest id first.
    Select(Condition),
    /// Set the state of the rows that meet the condition, and return them.
    Update(Condition, u32),
    /// Delete the rows that meet the condition, and return them.
    Delete(Condition),
    /// Count the rows that meet the condition by mailbox, in ascending
    /// order of mailbox.
    CountByMailbox(Condition),
}

/// The rows of a batch, the last message first: the engine hands out its
/// ids in the order of the rows, so that the first message of the batch
/// gets the largest id.
pub open spec fn insert_rows_of(batch: Seq<NewMessage>) -> Seq<(Seq<char>, Seq<char>, u32)> {
    Seq::new(
        batch.len(),
        |i: int|
            {
                let m = batch[batch.len() - 1 - i];
                (m.mailbox@, m.content@, state_code(m.initial_state()))
            },
    )
}

/// What a row to insert holds.
pub open spec fn insert_row_views(rows: Seq<InsertRow>) -> Seq<(Seq<char>, Seq<char>, u32)> {
    rows.map_values(|r: InsertRow| (r.mailbox@, r.content@, r.state))
}

/// The statement for an operation. An empty batch needs none: it adds
/// nothing.
pub fn plan_statement(operation: Operation) -> (statement: Option<Statement>)
    ensures
        match operation {
            Operation::AddMessages(batch) => if batch@.len() == 0 {
                statement is None
            } else {
                statement matches Some(Statement::Insert(rows)) && insert_row_views(rows@)
                    == insert_rows_of(batch@)
            },
            Operation::LoadMessages(filter) => statement matches Some(Statement::Select(c)) && c@
                == where_of(filter@),
            Operation::ChangeState(filter, new_state) => statement matches Some(
                Statement::Update(c, code),
            ) && c@ == where_of(filter@) && code == state_code(new_state),
            Operation::DeleteMessages(filter) => statement matches Some(Statement::Delete(c)) && c@
                == where_of(filter@),
            Operation::LoadMailboxes(filter) => statement matches Some(
                Statement::CountByMailbox(c),
            ) && c@ == where_of(filter@),
        },
{
    match operation {
        Operation::AddMessages(batch) => {
            if batch.len() == 0 {
                // A statement without rows would be malformed.
                return None;
            }
            let mut rows: Vec<InsertRow> = Vec::new();
            let mut i: usize = batch.len();
            while i > 0
                invariant
                    i <= batch.len(),
                    rows@.len() == batch.len() - i,
                    forall|k: int|
                        0 <= k < rows@.len() ==> {
                            let m = batch@[batch.len() - 1 - k];
                            &&& (#[trigger] rows@[k]).mailbox@ == m.mailbox@
                            &&& rows@[k].content@ == m.content@
                            &&& rows@[k].state == state_code(m.initial_state())
                        },
                decreases i,
            {
                i -= 1;
                let message = &batch[i];
                let state = match message.state {
                    Some(state) => state,
                    None => State::Unread,
                };
                rows.push(
                    InsertRow {
                        mailbox: message.mailbox.as_str().to_owned(),
                        content: message.content.clone(),
                        state: state.code(),
                    },
                );
            }
            Some(Statement::Insert(rows))
        },
        Operation::LoadMessages(filter) => Some(Statement::Select(filter.get_where())),
        Operation::ChangeState(filter, new_state) => Some(
            Statement::Update(filter.get_where(), new_state.code()),
        ),
        Operation::DeleteMessages(filter) => Some(Statement::Delete(filter.get_where())),
        Operation::LoadMailboxes(filter) => Some(Statement::CountByMailbox(filter.get_where())),
    }
}

/// The rows that an insert returned, put back into the order of the batch.
pub fn returned_batch(rows: Vec<Message>) -> (batch: Vec<Message>)
    ensures
        batch@ == rows@.reverse(),
{
    let mut batch: Vec<Message> = Vec::new();
    let mut i: usize = rows.len();
    while i > 0
        invariant
            i <= rows.len(),
            batch@ == rows@.reverse().take(rows.len() - i),
        decreases i,
    {
        i -= 1;
        batch.push(rows[i].clone());
    }
    batch
}

/// The kinds of statements.
#[derive(Clone, Copy, Debug, PartialEq, Eq, Structural)]
pub enum StatementKind {
    Insert,
    Select,
    Update,
    Delete,
    CountByMailbox,
}

/// The order in which the engine is asked for the rows of a statement.
#[derive(Clone, Copy, Debug, PartialEq, Eq, Structural)]
pub enum RowOrder {
    /// No order is asked for: the engine does not sort the rows that a
    /// change returns.
    Unordered,
    /// The row with the largest id first.
    IdDescending,
    /// In ascending order of mailbox.
    MailboxAscending,
}

/// The kind of a statement.
pub open spec fn kind_of(statement: Statement) -> StatementKind {
    match statement {
        Statement::Insert(_) => StatementKind::Insert,
        Statement::Select(_) => StatementKind::Select,
        Statement::Update(_, _) => StatementKind::Update,
        Statement::Delete(_) => StatementKind::Delete,
        Statement::CountByMailbox(_) => StatementKind::CountByMailbox,
    }
}

/// The order in which the engine is asked for the rows of a statement of
/// the given kind: what is selected comes with the largest id first, the
/// counts in ascending order of mailbox, and what a change returns in no
/// order.
pub open spec fn row_order(kind: StatementKind) -> RowOrder {
    match kind {
        StatementKind::Select => RowOrder::IdDescending,
        StatementKind::CountByMailbox => RowOrder::MailboxAscending,
        _ => RowOrder::Unordered,
    }
}

/// The rows that the engine returned for a statement of the given kind, as
/// the store returns them: what was inserted in the order of the batch,
/// which is the reverse of the order of the rows; what was changed or
/// deleted with the latest first; and what was selected as it came.
pub open spec fn arranged(kind: StatementKind, rows: Seq<Message>) -> Seq<Message> {
    match kind {
        StatementKind::Insert => rows.reverse(),
        StatementKind::Update | StatementKind::Delete => sorted_latest_first(rows),
        _ => rows,
    }
}

impl Statement {
    /// The kind of this statement.
    pub fn kind(&self) -> (kind: StatementKind)
        ensures
            kind == kind_of(*self),
    {
        match self {
            Statement::Insert(_) => StatementKind::Insert,
            Statement::Select(_) => StatementKind::Select,
            Statement::Update(_, _) => StatementKind::Update,
            Statement::Delete(_) => StatementKind::Delete,
            Statement::CountByMailbox(_) => StatementKind::CountByMailbox,
        }
    }
}

/// The order in which the engine is asked for the rows of a statement of
/// the given kind.
pub fn order_of(kind: StatementKind) -> (order: RowOrder)
    ensures
        order == row_order(kind),
{
    match kind {
        StatementKind::Select => RowOrder::IdDescending,
        StatementKind::CountByMailbox => RowOrder::MailboxAscending,
        _ => RowOrder::Unordered,
    }
}

/// The rows that the engine returned for a statement of the given kind, as
/// the store returns them.
pub fn returned_rows(kind: StatementKind, rows: Vec<Message>) -> (returned: Vec<Message>)
    ensures
        returned@ == arranged(kind, rows@),
{
    match kind {
        StatementKind::Insert => returned_batch(rows),
        StatementKind::Update | StatementKind::Delete => sort_latest_first(rows),
        _ => rows,
    }
}

/// Why a row is no message, or no count of a mailbox.
#[derive(Clone, Copy, Debug, PartialEq, Eq, Structural)]
pub enum RowError {
    /// The id does not fit into 32 bits.
    Id,
    /// The mailbox is no mailbox path.
    Mailbox(MailboxError),
    /// The state is none of 0, 1 and 2.
    State,
    /// The count is negative.
    Count,
}

/// The message that a row stands for: its id must fit into 32 bits, its
/// mailbox must be a mailbox path, and its state must be 0, 1 or 2. The
/// checks are made in this order.
pub fn message_from_row(id: i64, timestamp: i64, mailbox: String, content: String, state: i64) -> (r:
    Result<Message, RowError>)
    ensures
        match r {
            Ok(m) => {
                &&& 0 <= id <= u32::MAX && m.id == id
                &&& m.timestamp == timestamp
                &&& mailbox_error(mailbox@) is None && m.mailbox@ == mailbox@
                &&& m.content == content
                &&& 0 <= state <= 2 && state_code(m.state) == state
            },
            Err(e) => if !(0 <= id <= u32::MAX) {
                e == RowError::Id
            } else if mailbox_error(mailbox@) is Some {
                e == RowError::Mailbox(mailbox_error(mailbox@)->Some_0)
            } else {
                e == RowError::State && !(0 <= state <= 2)
            },
        },
{
    if id < 0 || id > 0xffff_ffff {
        return Err(RowError::Id);
    }
    let mailbox = match Mailbox::new(mailbox) {
        Ok(m) => m,
        Err(e) => {
            return Err(RowError::Mailbox(e));
        },
    };
    if state < 0 || state > 2 {
        return Err(RowError::State);
    }
    match State::from_code(state as u32) {
        Ok(state) => Ok(Message { id: id as u32, timestamp, mailbox, content, state }),
        Err(_) => Err(RowError::State),
    }
}

/// The count of a mailbox that a row stands for: the mailbox must be a
/// mailbox path, and the count must not be negative.
pub fn mailbox_info_from_row(mailbox: String, count: i64) -> (r: Result<MailboxInfo, RowError>)
    ensures
        match r {
            Ok(info) => {
                &&& mailbox_error(mailbox@) is None && info.name@ == mailbox@
                &&& 0 <= count && info.message_count == count
            },
            Err(e) => if mailbox_error(mailbox@) is Some {
                e == RowError::Mailbox(mailbox_error(mailbox@)->Some_0)
            } else {
                e == RowError::Count && (count < 0 || count > usize::MAX)
            },
        },
{
    let name = match Mailbox::new(mailbox) {
        Ok(m) => m,
        Err(e) => {
            return Err(RowError::Mailbox(e));
        },
    };
    if count < 0 || count as u64 > usize::MAX as u64 {
        return Err(RowError::Count);
    }
    Ok(MailboxInfo { name, message_count: count as usize })
}

impl Message {
    /// The message that a row stands for, as `message_from_row` says.
    pub fn from_row(id: i64, timestamp: i64, mailbox: String, content: String, state: i64) -> (r:
        Result<Message, RowError>)
        ensures
            match r {
                Ok(m) => {
                    &&& 0 <= id <= u32::MAX && m.id == id
                    &&& m.timestamp == timestamp
                    &&& mailbox_error(mailbox@) is None && m.mailbox@ == mailbox@
                    &&& m.content == content
                    &&& 0 <= state <= 2 && state_code(m.state) == state
                },
                Err(e) => if !(0 <= id <= u32::MAX) {
                    e == RowError::Id
                } else if mailbox_error(mailbox@) is Some {
                    e == RowError::Mailbox(mailbox_error(mailbox@)->Some_0)
                } else {
                    e == RowError::State && !(0 <= state <= 2)
                },
            },
    {
        message_from_row(id, timestamp, mailbox, content, state)
    }
}

/// How the engine keeps its journal.
#[derive(Clone, Copy, Debug, PartialEq, Eq, Structural)]
pub enum JournalMode {
    /// A write-ahead log.
    Wal,
    /// A rollback journal that is deleted after every transaction: what
    /// is written can be read at once on the same handle.
    Delete,
}

/// The definition of a table.
#[derive(Debug)]
pub struct TableDefinition {
    pub name: &'static str,
    /// Whether the table is made only where there is none of its name.
    pub if_not_exists: bool,
    pub columns: Vec<Column>,
}

/// A store in an embedded SQL engine: how its database is opened, and the
/// statements that it runs.
#[derive(Clone, Copy, Debug, PartialEq, Eq, Structural)]
pub struct SqliteBackend {
    pub journal_mode: JournalMode,
    /// Whether the table of messages is dropped when the database is
    /// opened.
    pub reset: bool,
    /// Whether the engine is set to tell letters of different case apart
    /// where it matches a pattern, as the filter does.
    pub case_sensitive_like: bool,
}

impl SqliteBackend {
    /// A store for use: with a write-ahead log, and what is in it stays.
    pub fn new() -> (backend: Self)
        ensures
            backend == (SqliteBackend {
                journal_mode: JournalMode::Wal,
                reset: false,
                case_sensitive_like: true,
            }),
    {
        SqliteBackend { journal_mode: JournalMode::Wal, reset: false, case_sensitive_like: true }
    }

    /// A store for tests: with a rollback journal, and empty when it is
    /// opened.
    pub fn new_test() -> (backend: Self)
        ensures
            backend == (SqliteBackend {
                journal_mode: JournalMode::Delete,
                reset: true,
                case_sensitive_like: true,
            }),
    {
        SqliteBackend { journal_mode: JournalMode::Delete, reset: true, case_sensitive_like: true }
    }

    /// The table that the store makes when it is opened: the table of
    /// messages, made only where there is none yet, so that opening a
    /// store twice does no harm.
    pub fn init(&self) -> (table: TableDefinition)
        ensures
            table.name == TABLE,
            table.if_not_exists,
            table.columns@ == message_columns(),
    {
        TableDefinition { name: TABLE, if_not_exists: true, columns: message_table() }
    }

    /// The statement for an operation, as `plan_statement` says.
    pub fn statement(&self, operation: Operation) -> (statement: Option<Statement>)
        ensures
            match operation {
                Operation::AddMessages(batch) => if batch@.len() == 0 {
                    statement is None
                } else {
                    statement matches Some(Statement::Insert(rows)) && insert_row_views(rows@)
                        == insert_rows_of(batch@)
                },
                Operation::LoadMessages(filter) => statement matches Some(Statement::Select(c))
                    && c@ == where_of(filter@),
                Operation::ChangeState(filter, new_state) => statement matches Some(
                    Statement::Update(c, code),
                ) && c@ == where_of(filter@) && code == state_code(new_state),
                Operation::DeleteMessages(filter) => statement matches Some(Statement::Delete(c))
                    && c@ == where_of(filter@),
                Operation::LoadMailboxes(filter) => statement matches Some(
                    Statement::CountByMailbox(c),
                ) && c@ == where_of(filter@),
            },
    {
        plan_statement(operation)
    }
}

} // verus!
