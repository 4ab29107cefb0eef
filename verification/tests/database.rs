use mailbox::filter::MessageFilter;
use mailbox::mailbox::Mailbox;
use mailbox::memory_backend::MemoryBackend;
use mailbox::message::{NewMessage, State};
use mailbox::store::{Database, StoreError};

type Db = Database<MemoryBackend>;

fn add_message(
    db: &mut Db,
    mailbox: &str,
    content: &str,
    state: Option<State>,
) -> Result<(), String> {
    let mailbox = Mailbox::parse(mailbox).map_err(|err| String::from(err.message()))?;
    db.add_message(NewMessage {
        mailbox,
        content: content.to_string(),
        state,
    })
    .map_err(|err| format!("{err:?}"))?;
    Ok(())
}

fn get_populated_db() -> Db {
    let mut db = Database::new(MemoryBackend::new());
    add_message(&mut db, "unread", "unread1", Some(State::Unread)).unwrap();
    add_message(&mut db, "unread", "unread2", Some(State::Unread)).unwrap();
    add_message(&mut db, "read", "read1", Some(State::Read)).unwrap();
    add_message(&mut db, "read", "read2", Some(State::Read)).unwrap();
    add_message(&mut db, "read", "read3", Some(State::Read)).unwrap();
    add_message(&mut db, "archived", "archive1", Some(State::Archived)).unwrap();
    db
}

fn with_mailbox(mailbox: &str) -> MessageFilter {
    MessageFilter::new().with_mailbox(mailbox.try_into().unwrap())
}

#[test]
fn database_test_create() {
    let db = Database::new(MemoryBackend::new());
    assert_eq!(db.load_messages(MessageFilter::new()).unwrap().len(), 0);
}

#[test]
fn sqlite_backend_test_create() {
    let backend = MemoryBackend::new();
    assert!(Database::new(backend)
        .load_mailboxes(MessageFilter::new())
        .unwrap()
        .is_empty());
}

#[test]
fn test_add() {
    let mut db = Database::new(MemoryBackend::new());
    add_message(&mut db, "mailbox1", "message1", None).unwrap();
    add_message(&mut db, "mailbox2", "message2", None).unwrap();
    add_message(&mut db, "mailbox1", "message3", None).unwrap();
    assert_eq!(db.load_messages(MessageFilter::new()).unwrap().len(), 3);

    // The message that was added last comes first
    let messages = db.load_messages(with_mailbox("mailbox1")).unwrap();
    assert_eq!(messages[0].mailbox.as_str(), "mailbox1");
    assert_eq!(messages[0].content, "message3");
    assert_eq!(messages[1].mailbox.as_str(), "mailbox1");
    assert_eq!(messages[1].content, "message1");
    assert_eq!(messages.len(), 2);

    let messages = db.load_messages(with_mailbox("mailbox2")).unwrap();
    assert_eq!(messages[0].mailbox.as_str(), "mailbox2");
    assert_eq!(messages[0].content, "message2");
    assert_eq!(messages.len(), 1);
}

#[test]
fn database_test_add_invalid() {
    let mut db = Database::new(MemoryBackend::new());
    assert!(add_message(&mut db, "mailbox", "", None).is_err());
    assert!(add_message(&mut db, "", "message", None).is_err());
    assert!(add_message(&mut db, "mailbox/", "message", None).is_err());
    assert!(add_message(&mut db, "/mailbox", "message", None).is_err());
    assert!(add_message(&mut db, "parent//child", "message", None).is_err());
    assert!(add_message(&mut db, "parent/%", "message", None).is_err());
    assert_eq!(db.load_messages(MessageFilter::new()).unwrap().len(), 0);
}

#[test]
fn database_test_load() {
    let db = get_populated_db();
    assert_eq!(db.load_messages(MessageFilter::new()).unwrap().len(), 6);
}

#[test]
fn database_test_load_with_mailbox_filter() {
    let db = get_populated_db();
    assert_eq!(db.load_messages(with_mailbox("unread")).unwrap().len(), 2);
}

#[test]
fn database_test_load_with_states_filter() {
    let db = get_populated_db();
    assert_eq!(
        db.load_messages(MessageFilter::new().with_states(vec![State::Read, State::Archived]))
            .unwrap()
            .len(),
        4
    );
}

#[test]
fn database_test_load_with_sub_mailbox_filters() {
    let mut db = get_populated_db();
    add_message(&mut db, "a", "message", None).unwrap();
    add_message(&mut db, "ab", "message", None).unwrap();
    add_message(&mut db, "a/b", "message", None).unwrap();
    add_message(&mut db, "a/c", "message", None).unwrap();
    add_message(&mut db, "a/b/c", "message", None).unwrap();
    add_message(&mut db, "a/c/b", "message", None).unwrap();
    assert_eq!(db.load_messages(with_mailbox("a")).unwrap().len(), 5);
    assert_eq!(db.load_messages(with_mailbox("a/b")).unwrap().len(), 2);
    assert_eq!(db.load_messages(with_mailbox("a/b/c")).unwrap().len(), 1);
}

#[test]
fn database_test_read() {
    let mut db = get_populated_db();
    db.change_state(
        MessageFilter::new().with_states(vec![State::Unread]),
        State::Read,
    )
    .unwrap();
    assert_eq!(
        db.load_messages(MessageFilter::new().with_states(vec![State::Read]))
            .unwrap()
            .len(),
        5
    );
}

#[test]
fn database_test_archive() {
    let mut db = get_populated_db();
    db.change_state(
        MessageFilter::new().with_states(vec![State::Unread, State::Read]),
        State::Archived,
    )
    .unwrap();
    assert_eq!(
        db.load_messages(MessageFilter::new().with_states(vec![State::Archived]))
            .unwrap()
            .len(),
        6
    );
}

#[test]
fn database_test_delete() {
    let mut db = get_populated_db();
    db.delete_messages(MessageFilter::new().with_states(vec![State::Unread, State::Read]))
        .unwrap();
    assert_eq!(db.load_messages(MessageFilter::new()).unwrap().len(), 1);
}

#[test]
fn database_test_add_message_returns_the_message() {
    let mut db = Database::new(MemoryBackend::new());
    let message = db
        .add_message(NewMessage {
            mailbox: "m".try_into().unwrap(),
            content: String::from("c"),
            state: Some(State::Archived),
        })
        .unwrap();
    assert_eq!((message.id, message.state), (1, State::Archived));
    assert_eq!(
        db.add_message(NewMessage {
            mailbox: "m".try_into().unwrap(),
            content: String::new(),
            state: None,
        }),
        Err(StoreError::EmptyContent)
    );
    assert_eq!(
        db.load_mailboxes(MessageFilter::new()).unwrap()[0].message_count,
        1
    );
}
