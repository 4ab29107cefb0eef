use mailbox::filter::MessageFilter;
use mailbox::mailbox::Mailbox;
use mailbox::message::{MailboxInfo, Message, State};
use mailbox::worker::{Request, Response, Task, Worker};

fn message(id: u32) -> Message {
    Message {
        id,
        timestamp: 0,
        mailbox: "m".try_into().unwrap(),
        content: String::from("content"),
        state: State::Unread,
    }
}

#[test]
fn test_stale_load_is_dropped() {
    let mut worker = Worker::new();
    let filter_a = MessageFilter::new().with_ids(vec![1]);
    let filter_b = MessageFilter::new().with_ids(vec![2]);
    let task_a = worker.start(Request::LoadMessages(filter_a));
    let task_b = worker.start(Request::LoadMessages(filter_b));
    assert_eq!(worker.pending_requests(), 2);
    let (id_a, id_b) = match (task_a, task_b) {
        (Task::LoadMessages { id: a, .. }, Task::LoadMessages { id: b, .. }) => (a, b),
        _ => panic!("expected two loads of messages"),
    };
    // The answer to the first load arrives after the second has started
    assert!(worker.finish_load_messages(id_a, vec![message(1)]).is_none());
    assert_eq!(worker.pending_requests(), 1);
    match worker.finish_load_messages(id_b, vec![message(2)]) {
        Some(Response::LoadMessages(messages)) => assert_eq!(messages, vec![message(2)]),
        _ => panic!("expected the messages of the second load"),
    }
    assert_eq!(worker.pending_requests(), 0);
}

#[test]
fn test_stale_load_is_dropped_whatever_the_order() {
    let mut worker = Worker::new();
    let task_a = worker.start(Request::LoadMessages(MessageFilter::new()));
    let task_b = worker.start(Request::LoadMessages(MessageFilter::new()));
    let (id_a, id_b) = match (task_a, task_b) {
        (Task::LoadMessages { id: a, .. }, Task::LoadMessages { id: b, .. }) => (a, b),
        _ => panic!("expected two loads of messages"),
    };
    assert!(worker.finish_load_messages(id_b, vec![]).is_some());
    assert!(worker.finish_load_messages(id_a, vec![]).is_none());
}

#[test]
fn test_loads_of_different_kinds_do_not_supersede() {
    let mut worker = Worker::new();
    let messages = worker.start(Request::LoadMessages(MessageFilter::new()));
    let mailboxes = worker.start(Request::LoadMailboxes(MessageFilter::new()));
    let (id_messages, id_mailboxes) = match (messages, mailboxes) {
        (Task::LoadMessages { id: a, .. }, Task::LoadMailboxes { id: b, .. }) => (a, b),
        _ => panic!("expected a load of each kind"),
    };
    assert!(worker.finish_load_messages(id_messages, vec![]).is_some());
    let info = MailboxInfo {
        name: "m".try_into().unwrap(),
        message_count: 1,
    };
    match worker.finish_load_mailboxes(id_mailboxes, vec![info.clone()]) {
        Some(Response::LoadMailboxes(infos)) => assert_eq!(infos, vec![info]),
        _ => panic!("expected the mailboxes"),
    }
}

#[test]
fn test_mutations_always_answer() {
    let mut worker = Worker::new();
    let task = worker.start(Request::ChangeMessageStates {
        filter: MessageFilter::new().with_ids(vec![1]),
        new_state: State::Read,
        refresh: true,
    });
    assert!(matches!(
        task,
        Task::ChangeMessageStates {
            new_state: State::Read,
            refresh: true,
            ..
        }
    ));
    assert!(matches!(
        worker.finish_mutation(true),
        Response::Mutated { refresh: true }
    ));
    let task = worker.start(Request::DeleteMessages {
        filter: MessageFilter::new().with_ids(vec![1]),
        refresh: false,
    });
    assert!(matches!(task, Task::DeleteMessages { refresh: false, .. }));
    assert!(matches!(
        worker.finish_mutation(false),
        Response::Mutated { refresh: false }
    ));
    assert_eq!(worker.pending_requests(), 0);
}

#[test]
fn test_initial_load_fans_out() {
    let mut worker = Worker::new();
    let filter = MessageFilter::new().with_states(vec![State::Unread]);
    let initial = Mailbox::parse("a/b").unwrap();
    let task = worker.start(Request::InitialLoad {
        filter: filter.clone(),
        initial_mailbox: Some(initial.clone()),
    });
    match task {
        Task::InitialLoad {
            mailbox_filter,
            message_filter,
            initial_mailbox,
        } => {
            assert_eq!(mailbox_filter, filter);
            assert_eq!(message_filter, filter.with_mailbox(initial.clone()));
            assert_eq!(initial_mailbox, Some(initial.clone()));
        }
        _ => panic!("expected the first load"),
    }
    assert_eq!(worker.pending_requests(), 1);
    let response = worker.finish_initial_load(vec![], vec![message(1)], Some(initial));
    assert!(matches!(response, Response::InitialLoad { .. }));
    assert_eq!(worker.pending_requests(), 0);
}
