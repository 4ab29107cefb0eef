use mailbox::app::{App, Pane, StateSet};
use mailbox::filter::MessageFilter;
use mailbox::mailbox::Mailbox;
use mailbox::mailbox_tree::{build_mailbox_list, MailboxRow};
use mailbox::memory_backend::MemoryBackend;
use mailbox::message::{MailboxInfo, Message, NewMessage, State};
use mailbox::multiselect_list::SelectionMode;
use mailbox::navigable_list::NavigableList;
use mailbox::store::Backend;
use mailbox::worker::{Request, Response};

fn info(name: &str, message_count: usize) -> MailboxInfo {
    MailboxInfo {
        name: name.try_into().unwrap(),
        message_count,
    }
}

fn row(name: &str, depth: usize, message_count: usize) -> MailboxRow {
    MailboxRow {
        mailbox: name.try_into().unwrap(),
        depth,
        message_count,
    }
}

fn message(id: u32, mailbox: &str, state: State) -> Message {
    Message {
        id,
        timestamp: 1640995200 + id as i64,
        mailbox: mailbox.try_into().unwrap(),
        content: format!("message {id}"),
        state,
    }
}

fn loaded_app(mailboxes: Vec<MailboxInfo>, messages: Vec<Message>, states: Vec<State>) -> App {
    let (mut app, _) = App::new(None, states);
    let requests = app.handle_worker_response(Response::InitialLoad {
        mailboxes,
        messages,
        initial_mailbox: None,
    });
    assert!(requests.is_empty());
    app
}

#[test]
fn test_build_mailbox_list() {
    let mailboxes = vec![
        info("a", 1),
        info("a/b", 1),
        info("c", 1),
        info("b", 1),
        info("b/d/e", 1),
        info("b/c", 1),
        info("b/d", 1),
    ];
    assert_eq!(
        build_mailbox_list(mailboxes),
        vec![
            row("a", 0, 2),
            row("a/b", 1, 1),
            row("b", 0, 4),
            row("b/c", 1, 1),
            row("b/d", 1, 2),
            row("b/d/e", 2, 1),
            row("c", 0, 1),
        ]
    );
}

#[test]
fn test_build_mailbox_list_adds_repeated_counts() {
    assert_eq!(
        build_mailbox_list(vec![info("x/y", 2), info("x/y", 3), info("x", 0)]),
        vec![row("x", 0, 5), row("x/y", 1, 5)]
    );
    assert_eq!(build_mailbox_list(vec![]), vec![]);
    assert_eq!(
        build_mailbox_list(vec![info("m", usize::MAX), info("m/n", 1), info("m", 7)]),
        vec![row("m", 0, usize::MAX), row("m/n", 1, 1)]
    );
}

#[test]
fn test_new_app_asks_for_the_first_load() {
    let (app, request) = App::new(
        Some(Mailbox::parse("a").unwrap()),
        vec![State::Read, State::Unread, State::Read],
    );
    assert_eq!(app.active_pane, Pane::Messages);
    assert_eq!(
        app.active_states,
        StateSet {
            unread: true,
            read: true,
            archived: false
        }
    );
    match request {
        Request::InitialLoad {
            filter,
            initial_mailbox,
        } => {
            assert_eq!(
                filter,
                MessageFilter::new().with_states(vec![State::Unread, State::Read])
            );
            assert_eq!(initial_mailbox, Some(Mailbox::parse("a").unwrap()));
        }
        _ => panic!("expected the first load"),
    }
}

#[test]
fn test_initial_load_puts_the_cursor_on_the_initial_mailbox() {
    let (mut app, _) = App::new(None, vec![State::Unread]);
    app.handle_worker_response(Response::InitialLoad {
        mailboxes: vec![info("a/b", 1), info("c", 2)],
        messages: vec![message(1, "a/b", State::Unread)],
        initial_mailbox: Some(Mailbox::parse("a/b").unwrap()),
    });
    assert_eq!(app.mailboxes.get_cursor(), Some(1));
    assert_eq!(
        app.get_display_filter(),
        MessageFilter::new()
            .with_mailbox(Mailbox::parse("a/b").unwrap())
            .with_states(vec![State::Unread])
    );
    assert_eq!(app.messages.get_items().len(), 1);
}

#[test]
fn test_action_filter() {
    let mut app = loaded_app(
        vec![info("m", 3)],
        vec![
            message(3, "m", State::Unread),
            message(2, "m", State::Unread),
            message(1, "m", State::Unread),
        ],
        vec![State::Unread],
    );
    // Neither a selection nor a cursor
    assert_eq!(app.get_action_filter(), MessageFilter::new().with_ids(vec![]));
    // The message under the cursor
    app.messages.set_cursor(Some(1));
    assert_eq!(app.get_action_filter(), MessageFilter::new().with_ids(vec![2]));
    // The selected messages, in the order of the list
    app.messages.set_item_selected(1, true);
    app.messages.set_item_selected(3, true);
    assert_eq!(
        app.get_action_filter(),
        MessageFilter::new().with_ids(vec![3, 1])
    );
}

#[test]
fn test_optimistic_archive_empties_the_mailbox() {
    let mut app = loaded_app(
        vec![info("bar", 1), info("foo", 1)],
        vec![message(2, "bar", State::Unread), message(1, "foo", State::Unread)],
        vec![State::Unread],
    );
    // Put the cursor on foo and show its messages
    app.mailboxes.set_cursor(Some(1));
    app.filter_messages();
    assert_eq!(app.messages.get_items().len(), 1);
    app.messages.set_cursor(Some(0));

    let request = app.set_selected_message_states(State::Archived);

    // The list of messages is empty at once and foo has left the tree
    assert!(app.messages.get_items().is_empty());
    assert_eq!(app.mailboxes.get_items(), &vec![row("bar", 0, 1)]);
    assert_eq!(app.mailboxes.get_cursor(), None);
    match request {
        Request::ChangeMessageStates {
            filter,
            new_state,
            refresh,
        } => {
            assert_eq!(filter, MessageFilter::new().with_ids(vec![1]));
            assert_eq!(new_state, State::Archived);
            assert!(refresh);
        }
        _ => panic!("expected a change of states"),
    }

    // The refresh loads both lists anew
    let requests = app.handle_worker_response(Response::Mutated { refresh: true });
    assert_eq!(requests.len(), 2);
    assert!(matches!(&requests[0], Request::LoadMailboxes(f)
        if *f == MessageFilter::new().with_states(vec![State::Unread])));
    assert!(matches!(&requests[1], Request::LoadMessages(f)
        if *f == MessageFilter::new().with_states(vec![State::Unread])));
}

#[test]
fn test_optimistic_read_keeps_the_mailbox() {
    let mut app = loaded_app(
        vec![info("a", 1), info("a/b", 2)],
        vec![
            message(3, "a/b", State::Unread),
            message(2, "a/b", State::Read),
            message(1, "a", State::Unread),
        ],
        vec![State::Unread, State::Read],
    );
    app.mailboxes.set_cursor(Some(0));
    app.messages.set_all_selected(true);
    let request = app.set_selected_message_states(State::Read);
    // Every message is still shown, now read
    assert_eq!(
        app.messages
            .get_items()
            .iter()
            .map(|m| (m.id, m.state))
            .collect::<Vec<_>>(),
        vec![(3, State::Read), (2, State::Read), (1, State::Read)]
    );
    assert_eq!(
        app.mailboxes.get_items(),
        &vec![row("a", 0, 3), row("a/b", 1, 2)]
    );
    assert_eq!(app.messages.get_selected_items().len(), 3);
    assert!(matches!(
        request,
        Request::ChangeMessageStates { refresh: false, .. }
    ));
    assert!(app
        .handle_worker_response(Response::Mutated { refresh: false })
        .is_empty());
}

#[test]
fn test_optimistic_delete() {
    let mut app = loaded_app(
        vec![info("a", 1), info("a/b", 2)],
        vec![
            message(3, "a/b", State::Unread),
            message(2, "a/b", State::Unread),
            message(1, "a", State::Unread),
        ],
        vec![State::Unread],
    );
    app.mailboxes.set_cursor(Some(1));
    app.messages.set_cursor(Some(0));
    app.messages.set_item_selected(3, true);
    app.messages.set_item_selected(2, true);
    let request = app.delete_selected_messages();
    assert_eq!(
        app.messages.get_items().iter().map(|m| m.id).collect::<Vec<_>>(),
        vec![1]
    );
    assert_eq!(app.mailboxes.get_items(), &vec![row("a", 0, 1)]);
    match request {
        Request::DeleteMessages { filter, refresh } => {
            assert_eq!(filter, MessageFilter::new().with_ids(vec![3, 2]));
            assert!(refresh);
        }
        _ => panic!("expected a deletion"),
    }
}

#[test]
fn test_toggle_active_state() {
    let mut app = loaded_app(vec![], vec![], vec![State::Unread]);
    let requests = app.toggle_active_state(State::Archived);
    assert!(app.active_states.contains(State::Archived));
    assert_eq!(requests.len(), 2);
    assert!(matches!(&requests[0], Request::LoadMailboxes(f)
        if *f == MessageFilter::new().with_states(vec![State::Unread, State::Archived])));
    let requests = app.toggle_active_state(State::Unread);
    assert!(!app.active_states.contains(State::Unread));
    assert!(matches!(&requests[1], Request::LoadMessages(f)
        if *f == MessageFilter::new().with_states(vec![State::Archived])));
}

#[test]
fn test_loaded_mailboxes_may_ask_for_messages() {
    let mut app = loaded_app(
        vec![info("a", 1), info("b", 1)],
        vec![message(2, "b", State::Unread), message(1, "a", State::Unread)],
        vec![State::Unread],
    );
    app.mailboxes.set_cursor(Some(1));
    // The mailbox under the cursor stays: nothing to ask
    let requests = app.handle_worker_response(Response::LoadMailboxes(vec![
        info("b", 1),
        info("c", 1),
    ]));
    assert!(requests.is_empty());
    assert_eq!(app.mailboxes.get_cursor(), Some(0));
    // The mailbox under the cursor goes, and the cursor with it to the next
    // mailbox that stays: the messages are asked for anew
    let requests = app.handle_worker_response(Response::LoadMailboxes(vec![info("c", 1)]));
    assert_eq!(app.mailboxes.get_cursor(), Some(0));
    assert_eq!(requests.len(), 1);
    assert!(matches!(&requests[0], Request::LoadMessages(f)
        if *f == MessageFilter::new()
            .with_mailbox(Mailbox::parse("c").unwrap())
            .with_states(vec![State::Unread])));
    // No mailbox from the cursor on stays: the cursor goes
    let requests = app.handle_worker_response(Response::LoadMailboxes(vec![info("a", 1)]));
    assert_eq!(app.mailboxes.get_cursor(), None);
    assert_eq!(requests.len(), 1);
    assert!(matches!(&requests[0], Request::LoadMessages(f)
        if *f == MessageFilter::new().with_states(vec![State::Unread])));
}

#[test]
fn test_loaded_messages_keep_cursor_and_selection() {
    let mut app = loaded_app(
        vec![info("a", 3)],
        vec![
            message(3, "a", State::Unread),
            message(2, "a", State::Unread),
            message(1, "a", State::Unread),
        ],
        vec![State::Unread],
    );
    app.messages.set_cursor(Some(1));
    app.messages.set_item_selected(1, true);
    app.messages.set_item_selected(3, true);
    app.messages.set_selection_mode(SelectionMode::Select);
    app.handle_worker_response(Response::LoadMessages(vec![
        message(4, "a", State::Unread),
        message(2, "a", State::Unread),
        message(1, "a", State::Unread),
    ]));
    assert_eq!(app.messages.get_cursor(), Some(1));
    assert!(app.messages.get_item_selected(1));
    assert!(!app.messages.get_item_selected(3));
    assert!(!app.messages.get_item_selected(4));
    assert!(!app.messages.get_item_selected(2));
}

#[test]
fn test_set_mailbox_message_state() {
    let mut app = loaded_app(
        vec![info("a", 1), info("a/b", 1), info("c", 1)],
        vec![
            message(3, "c", State::Unread),
            message(2, "a/b", State::Unread),
            message(1, "a", State::Unread),
        ],
        vec![State::Unread],
    );
    let request = app.set_mailbox_message_state(Mailbox::parse("a").unwrap(), State::Read);
    assert_eq!(
        app.messages.get_items().iter().map(|m| m.id).collect::<Vec<_>>(),
        vec![3]
    );
    assert_eq!(app.mailboxes.get_items(), &vec![row("c", 0, 1)]);
    match request {
        Request::ChangeMessageStates {
            filter, new_state, ..
        } => {
            assert_eq!(
                filter,
                MessageFilter::new()
                    .with_mailbox(Mailbox::parse("a").unwrap())
                    .with_states(vec![State::Unread])
            );
            assert_eq!(new_state, State::Read);
        }
        _ => panic!("expected a change of states"),
    }
}

#[test]
fn test_state_set() {
    let mut set = StateSet::new();
    assert_eq!(set.to_vec(), vec![]);
    set.toggle(State::Archived);
    set.toggle(State::Unread);
    assert_eq!(set.to_vec(), vec![State::Unread, State::Archived]);
    set.toggle(State::Unread);
    assert!(!set.contains(State::Unread));
    assert!(set.contains(State::Archived));
    assert_eq!(
        StateSet::from_states(&vec![State::Read, State::Read]),
        StateSet {
            unread: false,
            read: true,
            archived: false
        }
    );
}

// Ask of the store what a request asks for, and answer as the worker does
fn serve(store: &mut MemoryBackend, request: Request) -> Response {
    match request {
        Request::ChangeMessageStates {
            filter,
            new_state,
            refresh,
        } => {
            store.change_state(filter, new_state).unwrap();
            Response::Mutated { refresh }
        }
        Request::DeleteMessages { filter, refresh } => {
            store.delete_messages(filter).unwrap();
            Response::Mutated { refresh }
        }
        Request::LoadMessages(filter) => {
            Response::LoadMessages(store.load_messages(filter).unwrap())
        }
        Request::LoadMailboxes(filter) => {
            Response::LoadMailboxes(store.load_mailboxes(filter).unwrap())
        }
        Request::InitialLoad {
            filter,
            initial_mailbox,
        } => Response::InitialLoad {
            mailboxes: store.load_mailboxes(filter.clone()).unwrap(),
            messages: store
                .load_messages(filter.with_mailbox_option(initial_mailbox.clone()))
                .unwrap(),
            initial_mailbox,
        },
    }
}

// Send requests to the store until no request is left
fn settle(app: &mut App, store: &mut MemoryBackend, requests: Vec<Request>) {
    let mut queue = requests;
    while !queue.is_empty() {
        let responses = queue.drain(..).map(|request| serve(store, request)).collect();
        queue = app.handle_worker_responses(responses);
    }
}

#[test]
fn test_optimistic_update_agrees_with_the_store() {
    let mut store = MemoryBackend::new();
    let batch = [
        ("a", State::Unread),
        ("a/b", State::Read),
        ("a/b", State::Unread),
        ("c", State::Unread),
        ("a/b/c", State::Archived),
        ("a", State::Unread),
    ];
    for (mailbox, state) in batch {
        store
            .add_messages(vec![NewMessage {
                mailbox: mailbox.try_into().unwrap(),
                content: String::from("content"),
                state: Some(state),
            }])
            .unwrap();
    }
    let mailbox_filter = || MessageFilter::new().with_states(vec![State::Unread, State::Read]);
    let (mut app, initial_load) = App::new(
        Some("a/b".try_into().unwrap()),
        vec![State::Unread, State::Read],
    );
    settle(&mut app, &mut store, vec![initial_load]);
    assert_eq!(app.mailboxes.get_cursor(), Some(1));
    assert_eq!(
        app.messages.get_items().iter().map(|m| m.id).collect::<Vec<_>>(),
        vec![3, 2]
    );

    // Archive the first message of a/b: the mailbox stays, and the lists are
    // those of the store without asking it
    app.messages.set_cursor(Some(0));
    let request = app.set_selected_message_states(State::Archived);
    assert!(matches!(
        request,
        Request::ChangeMessageStates { refresh: false, .. }
    ));
    settle(&mut app, &mut store, vec![request]);
    assert_eq!(
        app.messages.get_items(),
        &store.load_messages(app.get_display_filter()).unwrap()
    );
    assert_eq!(
        app.mailboxes.get_items(),
        &build_mailbox_list(store.load_mailboxes(mailbox_filter()).unwrap())
    );

    // Delete the other: the mailbox goes, the cursor moves on to c, and the
    // lists are those of the store once it was asked
    app.messages.set_cursor(Some(0));
    let request = app.delete_selected_messages();
    assert!(matches!(
        request,
        Request::DeleteMessages { refresh: true, .. }
    ));
    assert!(app.messages.get_items().is_empty());
    assert_eq!(
        app.mailboxes.get_items(),
        &vec![row("a", 0, 2), row("c", 0, 1)]
    );
    settle(&mut app, &mut store, vec![request]);
    assert_eq!(app.get_display_filter(), mailbox_filter().with_mailbox("c".try_into().unwrap()));
    assert_eq!(
        app.messages.get_items(),
        &store.load_messages(app.get_display_filter()).unwrap()
    );
    assert_eq!(
        app.mailboxes.get_items(),
        &build_mailbox_list(store.load_mailboxes(mailbox_filter()).unwrap())
    );
}
