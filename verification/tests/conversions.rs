use mailbox::cli::ImportMessageFormat;
use mailbox::condition::{escape_pattern, LIKE_ESCAPE};
use mailbox::event_loop::{layout_plan, Part, Split};
use mailbox::filter::MessageFilter;
use mailbox::import::{read_messages_stdin, read_tsv_record, ImportError};
use mailbox::mailbox::Mailbox;
use mailbox::memory_backend::MemoryBackend;
use mailbox::message::{InvalidState, Message, NewMessage, State};
use mailbox::query::FilterError;
use mailbox::server::{
    answer_headers, create_messages, delete_messages, read_mailboxes, read_messages,
    update_messages, BadRequest, Body, Decision, StoreCall, CORS_HEADER,
};
use mailbox::sqlite_backend::{
    message_table, order_of, returned_rows, RowOrder, SqliteBackend, StatementKind, TABLE,
};
use mailbox::store::{Database, StoreError};
use mailbox::time_text::time_of_reading;
use std::str::FromStr;

fn stored(id: u32, timestamp: i64) -> Message {
    Message {
        id,
        timestamp,
        mailbox: Mailbox::parse("m").unwrap(),
        content: String::from("c"),
        state: State::Unread,
    }
}

fn new_message(mailbox: &str, content: &str, state: Option<State>) -> NewMessage {
    NewMessage {
        mailbox: Mailbox::parse(mailbox).unwrap(),
        content: String::from(content),
        state,
    }
}

#[test]
fn test_state_try_from_code() {
    assert_eq!(State::try_from(0u32), Ok(State::Unread));
    assert_eq!(State::try_from(1u32), Ok(State::Read));
    assert_eq!(State::try_from(2u32), Ok(State::Archived));
    assert_eq!(State::try_from(3u32), Err(InvalidState));
    assert_eq!(State::try_from(u32::MAX), Err(InvalidState));
}

#[test]
fn test_state_into_code() {
    assert_eq!(u32::from(State::Unread), 0);
    assert_eq!(u32::from(State::Read), 1);
    assert_eq!(u32::from(State::Archived), 2);
    for code in 0u32..3 {
        assert_eq!(u32::from(State::try_from(code).unwrap()), code);
    }
}

#[test]
fn test_state_from_str() {
    assert_eq!(State::from_str("unread"), Ok(State::Unread));
    assert_eq!(State::from_str("read"), Ok(State::Read));
    assert_eq!(State::from_str("archived"), Ok(State::Archived));
    assert_eq!(State::from_str(""), Err(InvalidState));
    assert_eq!(State::from_str("Read"), Err(InvalidState));
    assert_eq!("archived".parse::<State>(), Ok(State::Archived));
}

#[test]
fn test_time_of_a_reading_of_the_clock() {
    assert_eq!(time_of_reading(Ok(0)), 0);
    assert_eq!(time_of_reading(Ok(1_700_000_000)), 1_700_000_000);
    assert_eq!(time_of_reading(Err(5)), -5);
    assert_eq!(time_of_reading(Ok(u64::MAX)), i64::MAX);
    assert_eq!(time_of_reading(Ok(i64::MAX as u64)), i64::MAX);
    assert_eq!(time_of_reading(Err(u64::MAX)), -i64::MAX);
}

#[test]
fn test_init_makes_the_table_of_messages() {
    let table = SqliteBackend::new().init();
    assert_eq!(table.name, TABLE);
    assert!(table.if_not_exists);
    assert_eq!(table.columns, message_table());
    assert_eq!(
        table.columns.iter().map(|c| c.name).collect::<Vec<_>>(),
        vec!["id", "timestamp", "mailbox", "content", "state"]
    );
}

#[test]
fn test_rows_come_back_by_the_kind_of_statement() {
    let rows = vec![stored(1, 10), stored(2, 30), stored(3, 20)];
    let ids = |kind: StatementKind| {
        returned_rows(kind, vec![stored(1, 10), stored(2, 30), stored(3, 20)])
            .iter()
            .map(|m| m.id)
            .collect::<Vec<_>>()
    };
    assert_eq!(ids(StatementKind::Insert), vec![3, 2, 1]);
    assert_eq!(ids(StatementKind::Update), vec![2, 3, 1]);
    assert_eq!(ids(StatementKind::Delete), vec![2, 3, 1]);
    assert_eq!(ids(StatementKind::Select), vec![1, 2, 3]);
    assert_eq!(returned_rows(StatementKind::Select, rows).len(), 3);
    assert_eq!(order_of(StatementKind::Select), RowOrder::IdDescending);
    assert_eq!(order_of(StatementKind::CountByMailbox), RowOrder::MailboxAscending);
    assert_eq!(order_of(StatementKind::Insert), RowOrder::Unordered);
    assert_eq!(order_of(StatementKind::Update), RowOrder::Unordered);
    assert_eq!(order_of(StatementKind::Delete), RowOrder::Unordered);
}

#[test]
fn test_an_empty_batch_is_added() {
    let mut db = Database::new(MemoryBackend::new());
    assert_eq!(db.add_messages(vec![]), Ok(vec![]));
    assert_eq!(db.load_messages(MessageFilter::new()), Ok(vec![]));
    assert_eq!(
        db.add_messages(vec![new_message("a", "", None)]),
        Err(StoreError::EmptyContent)
    );
    assert_eq!(
        db.add_message(new_message("a", "", None)),
        Err(StoreError::EmptyContent)
    );
    assert!(db.add_message(new_message("a", "b", None)).is_ok());
}

#[test]
fn test_handlers_decide_by_filter_and_body() {
    assert!(matches!(
        delete_messages(Ok(MessageFilter::new())),
        Decision::BadRequest(BadRequest::FilterRequired)
    ));
    assert!(matches!(
        delete_messages(Ok(MessageFilter::new().with_ids(vec![1]))),
        Decision::Call(StoreCall::DeleteMessages(_))
    ));
    assert!(matches!(
        delete_messages(Err(FilterError::InvalidId)),
        Decision::BadRequest(BadRequest::Filter(FilterError::InvalidId))
    ));
    assert!(matches!(
        read_messages(Ok(MessageFilter::new())),
        Decision::Call(StoreCall::LoadMessages(_))
    ));
    assert!(matches!(
        read_mailboxes(Ok(MessageFilter::new())),
        Decision::Call(StoreCall::LoadMailboxes(_))
    ));
    assert!(matches!(
        update_messages(Ok(MessageFilter::new()), Body::NewState(State::Read)),
        Decision::Call(StoreCall::ChangeState(_, State::Read))
    ));
    assert!(matches!(
        update_messages(Ok(MessageFilter::new()), Body::Unreadable),
        Decision::BadRequest(BadRequest::Body)
    ));
    assert!(matches!(
        create_messages(Body::Message(new_message("a", "b", None))),
        Decision::Call(StoreCall::AddMessages(batch)) if batch.len() == 1
    ));
    assert!(matches!(
        create_messages(Body::NewState(State::Read)),
        Decision::BadRequest(BadRequest::Body)
    ));
}

#[test]
fn test_tsv_records() {
    let fields = |values: &[&str]| values.iter().map(|v| String::from(*v)).collect::<Vec<_>>();
    assert_eq!(
        read_tsv_record(&fields(&["a", "b"])),
        Ok(new_message("a", "b", None))
    );
    assert_eq!(
        read_tsv_record(&fields(&["a", "b", ""])),
        Ok(new_message("a", "b", None))
    );
    assert_eq!(
        read_tsv_record(&fields(&["a", "b", "read", "more"])),
        Ok(new_message("a", "b", Some(State::Read)))
    );
    assert_eq!(read_tsv_record(&fields(&["a"])), Err(ImportError::FieldCount));
    assert_eq!(read_tsv_record(&fields(&[])), Err(ImportError::FieldCount));
    assert_eq!(
        read_tsv_record(&fields(&["a", "b", "C", "D"])),
        Err(ImportError::State)
    );
}

#[test]
fn test_tsv_fields_in_quotes() {
    assert_eq!(
        read_messages_stdin("m\t\"one\ttwo\"\tread\nn\tplain", ImportMessageFormat::Tsv),
        vec![
            Ok(new_message("m", "one\ttwo", Some(State::Read))),
            Ok(new_message("n", "plain", None)),
        ]
    );
    assert_eq!(
        read_messages_stdin("m\t\"one\ntwo\"\n", ImportMessageFormat::Tsv),
        vec![Ok(new_message("m", "one\ntwo", None))]
    );
}

#[test]
fn test_json_state_must_name_a_state() {
    assert_eq!(
        read_messages_stdin(
            "{\"mailbox\":\"a\",\"content\":\"b\",\"state\":\"\"}",
            ImportMessageFormat::Json
        ),
        vec![Err(ImportError::State)]
    );
}

#[test]
fn test_patterns_escape_what_is_special() {
    assert_eq!(escape_pattern("plain/path"), "plain/path");
    assert_eq!(escape_pattern("a_b"), "a\\_b");
    assert_eq!(escape_pattern("50%_\\"), "50\\%\\_\\\\");
    assert_eq!(LIKE_ESCAPE, '\\');
    let condition = MessageFilter::new()
        .with_mailbox(Mailbox::parse("a_b/c").unwrap())
        .get_where();
    let mailbox = condition.mailbox.unwrap();
    assert_eq!(mailbox.equals, "a_b/c");
    assert_eq!(mailbox.like, "a\\_b/c/%");
    assert!(SqliteBackend::new().case_sensitive_like);
    assert!(SqliteBackend::new_test().case_sensitive_like);
}

#[test]
fn test_every_answer_carries_the_header() {
    let header = ("Access-Control-Allow-Origin", "*");
    assert_eq!(CORS_HEADER, header);
    let decisions = vec![
        Decision::Forbidden,
        Decision::NotFound,
        Decision::BadRequest(BadRequest::FilterRequired),
        Decision::Call(StoreCall::LoadMessages(MessageFilter::new())),
    ];
    for decision in &decisions {
        assert_eq!(answer_headers(decision), vec![header]);
    }
}

#[test]
fn test_layout_plan() {
    let plan = layout_plan();
    assert_eq!(plan.rows, Split { first: Part::Fill(1), second: Part::Length(1) });
    assert_eq!(
        plan.content,
        Split { first: Part::Percentage(25), second: Part::Percentage(75) }
    );
    assert_eq!(plan.footer, Split { first: Part::Fill(1), second: Part::Length(10) });
}
