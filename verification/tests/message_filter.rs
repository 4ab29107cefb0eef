use mailbox::condition::{Condition, MailboxCondition};
use mailbox::filter::MessageFilter;
use mailbox::mailbox::Mailbox;
use mailbox::message::{Message, State};
use mailbox::query::FilterError;

fn get_message() -> Message {
    Message {
        id: 1,
        timestamp: i64::MIN,
        mailbox: "parent/child".try_into().unwrap(),
        content: String::from("Content"),
        state: State::Unread,
    }
}

#[test]
fn test_matches_all() {
    assert!(MessageFilter::new().matches_all());
    assert!(!MessageFilter::new().with_ids(vec![1]).matches_all());
    assert!(!MessageFilter::new()
        .with_mailbox("foo".try_into().unwrap())
        .matches_all());
    assert!(!MessageFilter::new()
        .with_states(vec![State::Unread])
        .matches_all());
}

#[test]
fn message_filter_test_matches_message_empty_filter() {
    let message = get_message();
    assert!(MessageFilter::new().matches_message(&message));
}

#[test]
fn message_filter_test_matches_message_id_filter() {
    let message = get_message();
    assert!(MessageFilter::new()
        .with_ids(vec![1])
        .matches_message(&message));
    assert!(MessageFilter::new()
        .with_ids(vec![1, 2])
        .matches_message(&message));
    assert!(!MessageFilter::new()
        .with_ids(vec![2])
        .matches_message(&message));
}

#[test]
fn message_filter_test_matches_message_mailbox_filter() {
    let message = get_message();
    assert!(MessageFilter::new()
        .with_mailbox("parent".try_into().unwrap())
        .matches_message(&message));
    assert!(MessageFilter::new()
        .with_mailbox("parent/child".try_into().unwrap())
        .matches_message(&message));
    assert!(!MessageFilter::new()
        .with_mailbox("parent/child2".try_into().unwrap())
        .matches_message(&message));
    assert!(!MessageFilter::new()
        .with_mailbox("parent/child/grandchild".try_into().unwrap())
        .matches_message(&message));
}

#[test]
fn message_filter_test_matches_message_state_filter() {
    let message = get_message();
    assert!(MessageFilter::new()
        .with_states(vec![State::Unread])
        .matches_message(&message));
    assert!(MessageFilter::new()
        .with_states(vec![State::Unread, State::Read])
        .matches_message(&message));
    assert!(!MessageFilter::new()
        .with_states(vec![State::Read])
        .matches_message(&message));
}

#[test]
fn test_serialize_ids() {
    let filter = MessageFilter::new().with_ids(vec![1]);
    assert_eq!(filter.to_query_string(), "ids=1");

    let filter = MessageFilter::new().with_ids(vec![1, 2, 3]);
    assert_eq!(filter.to_query_string(), "ids=1%2C2%2C3");
}

#[test]
fn test_serialize_mailbox() {
    let filter = MessageFilter::new().with_mailbox("foo".try_into().unwrap());
    assert_eq!(filter.to_query_string(), "mailbox=foo");
}

#[test]
fn test_serialize_states() {
    let filter = MessageFilter::new().with_states(vec![State::Unread]);
    assert_eq!(filter.to_query_string(), "states=unread");

    let filter = MessageFilter::new().with_states(vec![State::Read, State::Archived]);
    assert_eq!(filter.to_query_string(), "states=read%2Carchived");
}

#[test]
fn test_serialize_multiple() {
    let filter = MessageFilter::new()
        .with_ids(vec![1, 2, 3])
        .with_mailbox("foo".try_into().unwrap())
        .with_states(vec![State::Unread, State::Read]);
    assert_eq!(
        filter.to_query_string(),
        "ids=1%2C2%2C3&mailbox=foo&states=unread%2Cread"
    );
}

#[test]
fn test_deserialize_ids() {
    assert_eq!(
        MessageFilter::from_query_string("ids=1").unwrap(),
        MessageFilter::new().with_ids(vec![1])
    );

    assert_eq!(
        MessageFilter::from_query_string("ids=1,2,3").unwrap(),
        MessageFilter::new().with_ids(vec![1, 2, 3])
    );

    assert!(MessageFilter::from_query_string("ids=1,2,a").is_err());
}

#[test]
fn test_deserialize_mailbox() {
    assert_eq!(
        MessageFilter::from_query_string("mailbox=foo").unwrap(),
        MessageFilter::new().with_mailbox("foo".try_into().unwrap())
    );
}

#[test]
fn test_deserialize_states() {
    assert_eq!(
        MessageFilter::from_query_string("states=unread").unwrap(),
        MessageFilter::new().with_states(vec![State::Unread])
    );

    assert_eq!(
        MessageFilter::from_query_string("states=read,archived").unwrap(),
        MessageFilter::new().with_states(vec![State::Read, State::Archived])
    );

    assert_eq!(
        MessageFilter::from_query_string("states=").unwrap(),
        MessageFilter::new().with_states(vec![])
    );

    assert!(MessageFilter::from_query_string("states=unread,foo").is_err());
}

#[test]
fn test_deserialize_multiple() {
    assert_eq!(
        MessageFilter::from_query_string("ids=1,2,3&mailbox=foo&states=unread,read").unwrap(),
        MessageFilter::new()
            .with_ids(vec![1, 2, 3])
            .with_mailbox("foo".try_into().unwrap())
            .with_states(vec![State::Unread, State::Read])
    );
}

#[test]
fn test_deserialize_errors() {
    assert_eq!(
        MessageFilter::from_query_string("ids=1,2,a").unwrap_err(),
        FilterError::InvalidId
    );
    assert_eq!(
        MessageFilter::from_query_string("ids=4294967296").unwrap_err(),
        FilterError::InvalidId
    );
    assert_eq!(
        MessageFilter::from_query_string("ids=1,,2").unwrap_err(),
        FilterError::InvalidId
    );
    assert_eq!(
        MessageFilter::from_query_string("states=Unread").unwrap_err(),
        FilterError::InvalidState
    );
    assert_eq!(
        MessageFilter::from_query_string("foo=1").unwrap_err(),
        FilterError::UnknownField
    );
    assert_eq!(
        MessageFilter::from_query_string("ids=1&ids=2").unwrap_err(),
        FilterError::DuplicateField
    );
    assert!(matches!(
        MessageFilter::from_query_string("mailbox=a//b").unwrap_err(),
        FilterError::InvalidMailbox(_)
    ));
    // The pairs are read first, the lists after them
    assert_eq!(
        MessageFilter::from_query_string("ids=a&foo=1").unwrap_err(),
        FilterError::UnknownField
    );
    // Of the lists, the ids are read first
    assert_eq!(
        MessageFilter::from_query_string("states=x&ids=y").unwrap_err(),
        FilterError::InvalidId
    );
}

#[test]
fn test_deserialize_ids_with_sign_and_zeros() {
    assert_eq!(
        MessageFilter::from_query_string("ids=%2B7,007,4294967295,0").unwrap(),
        MessageFilter::new().with_ids(vec![7, 7, 4294967295, 0])
    );
}

#[test]
fn test_query_round_trip() {
    let filters = vec![
        MessageFilter::new(),
        MessageFilter::new().with_ids(vec![]),
        MessageFilter::new().with_ids(vec![0, 10, 4294967295]),
        MessageFilter::new().with_states(vec![]),
        MessageFilter::new().with_states(vec![State::Archived, State::Unread, State::Archived]),
        MessageFilter::new().with_mailbox(Mailbox::parse("a b/c&d=e/é").unwrap()),
        MessageFilter::new()
            .with_ids(vec![5])
            .with_mailbox(Mailbox::parse("x/y").unwrap())
            .with_states(vec![State::Read]),
    ];
    for filter in filters {
        let text = filter.to_query_string();
        assert_eq!(MessageFilter::from_query_string(&text).unwrap(), filter);
        let pairs = filter.to_query().to_pairs();
        assert_eq!(MessageFilter::from_pairs(&pairs).unwrap(), filter);
        assert_eq!(MessageFilter::from_query(filter.to_query()).unwrap(), filter);
    }
}

#[test]
fn test_get_where() {
    assert_eq!(
        MessageFilter::new().get_where(),
        Condition {
            ids: None,
            mailbox: None,
            states: None
        }
    );
    assert_eq!(
        MessageFilter::new()
            .with_ids(vec![3, 1])
            .with_mailbox(Mailbox::parse("a/b").unwrap())
            .with_states(vec![State::Archived, State::Unread])
            .get_where(),
        Condition {
            ids: Some(vec![3, 1]),
            mailbox: Some(MailboxCondition {
                equals: String::from("a/b"),
                like: String::from("a/b/%")
            }),
            states: Some(vec![2, 0])
        }
    );
}

#[test]
fn test_filter_accessors_and_same() {
    let filter = MessageFilter::new()
        .with_ids(vec![1])
        .with_mailbox_option(Some(Mailbox::parse("m").unwrap()))
        .with_mailbox_option(None);
    assert_eq!(filter.ids(), Some(&vec![1]));
    assert_eq!(filter.mailbox().map(|m| m.as_str()), Some("m"));
    assert_eq!(filter.states(), None);
    assert!(filter.same(&filter.clone()));
    assert!(!filter.same(&MessageFilter::new()));
    assert!(!MessageFilter::new()
        .with_states(vec![State::Read, State::Unread])
        .same(&MessageFilter::new().with_states(vec![State::Unread, State::Read])));
    assert_eq!(MessageFilter::default(), MessageFilter::new());
}

#[test]
fn test_state_codec() {
    for (state, code, word) in [
        (State::Unread, 0, "unread"),
        (State::Read, 1, "read"),
        (State::Archived, 2, "archived"),
    ] {
        assert_eq!(state.code(), code);
        assert_eq!(State::from_code(code), Ok(state));
        assert_eq!(state.as_str(), word);
        assert_eq!(State::from_word(word), Ok(state));
    }
    assert!(State::from_code(3).is_err());
    assert!(State::from_word("").is_err());
    assert!(State::from_word("Read").is_err());
}
