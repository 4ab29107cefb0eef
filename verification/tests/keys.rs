use mailbox::app::{App, Pane};
use mailbox::event_loop::{
    activate_clicked_pane, handle_key, AppLayout, Area, Cell, EventLoop, Size, UiEvent,
};
use mailbox::filter::MessageFilter;
use mailbox::input_event::{InputEvent, Key};
use mailbox::keys::{
    global_command, handle_global_key, handle_mailbox_key, handle_message_key, handle_pane_key,
    mailbox_command, message_command, GlobalCommand, MailboxCommand, MessageCommand,
};
use mailbox::message::{MailboxInfo, Message, State};
use mailbox::multiselect_list::SelectionMode;
use mailbox::navigable_list::NavigableList;
use mailbox::worker::{Request, Response};

fn key(c: char) -> InputEvent {
    InputEvent::from_key(Key::Char(c))
}

fn control(c: char) -> InputEvent {
    InputEvent::from_event(Key::Char(c), true)
}

fn info(name: &str, message_count: usize) -> MailboxInfo {
    MailboxInfo {
        name: name.try_into().unwrap(),
        message_count,
    }
}

fn message(id: u32, mailbox: &str, content: &str) -> Message {
    Message {
        id,
        timestamp: 0,
        mailbox: mailbox.try_into().unwrap(),
        content: String::from(content),
        state: State::Unread,
    }
}

fn app() -> App {
    let (mut app, _) = App::new(None, vec![State::Unread]);
    app.handle_worker_response(Response::InitialLoad {
        mailboxes: vec![info("a", 1), info("a/b", 1), info("c", 1)],
        messages: vec![
            message(3, "c", "see https://example.com/x, please"),
            message(2, "a/b", "no link here"),
            message(1, "a", "first"),
        ],
        initial_mailbox: None,
    });
    app
}

#[test]
fn test_global_keys() {
    assert_eq!(
        global_command(&key('1')),
        Some(GlobalCommand::Activate(Pane::Mailboxes))
    );
    assert_eq!(
        global_command(&control('2')),
        Some(GlobalCommand::Activate(Pane::Messages))
    );
    assert_eq!(
        global_command(&InputEvent::from_key(Key::Left)),
        Some(GlobalCommand::SwitchPane)
    );
    assert_eq!(
        global_command(&InputEvent::from_key(Key::Right)),
        Some(GlobalCommand::SwitchPane)
    );
    assert_eq!(global_command(&key('R')), Some(GlobalCommand::Reload));
    assert_eq!(
        global_command(&control('u')),
        Some(GlobalCommand::ToggleState(State::Unread))
    );
    assert_eq!(
        global_command(&control('r')),
        Some(GlobalCommand::ToggleState(State::Read))
    );
    assert_eq!(
        global_command(&control('a')),
        Some(GlobalCommand::ToggleState(State::Archived))
    );
    assert_eq!(global_command(&key('u')), None);
    assert_eq!(global_command(&key('q')), None);
    assert_eq!(global_command(&InputEvent::from_key(Key::Down)), None);
}

#[test]
fn test_mailbox_keys() {
    assert_eq!(
        mailbox_command(&InputEvent::from_key(Key::Esc)),
        Some(MailboxCommand::RemoveCursor)
    );
    assert_eq!(mailbox_command(&key('j')), Some(MailboxCommand::Next));
    assert_eq!(
        mailbox_command(&InputEvent::from_event(Key::Down, true)),
        Some(MailboxCommand::NextSibling)
    );
    assert_eq!(mailbox_command(&key('k')), Some(MailboxCommand::Previous));
    assert_eq!(
        mailbox_command(&control('k')),
        Some(MailboxCommand::PreviousSibling)
    );
    assert_eq!(mailbox_command(&key('K')), Some(MailboxCommand::Parent));
    assert_eq!(
        mailbox_command(&key('a')),
        Some(MailboxCommand::SetState(State::Archived))
    );
    assert_eq!(
        mailbox_command(&key('r')),
        Some(MailboxCommand::SetState(State::Read))
    );
    assert_eq!(
        mailbox_command(&key('u')),
        Some(MailboxCommand::SetState(State::Unread))
    );
    assert_eq!(mailbox_command(&key('x')), None);
    assert_eq!(mailbox_command(&InputEvent::from_key(Key::Enter)), None);
}

#[test]
fn test_message_keys() {
    let off = SelectionMode::Off;
    assert_eq!(
        message_command(&control('s'), off),
        Some(MessageCommand::ToggleMode(SelectionMode::Select))
    );
    assert_eq!(
        message_command(&control('s'), SelectionMode::Select),
        Some(MessageCommand::ToggleMode(SelectionMode::Off))
    );
    assert_eq!(
        message_command(&control('d'), SelectionMode::Select),
        Some(MessageCommand::ToggleMode(SelectionMode::Deselect))
    );
    assert_eq!(
        message_command(&control('d'), SelectionMode::Deselect),
        Some(MessageCommand::ToggleMode(SelectionMode::Off))
    );
    assert_eq!(message_command(&key('g'), off), Some(MessageCommand::SelectAll));
    assert_eq!(message_command(&key('G'), off), Some(MessageCommand::SelectNone));
    assert_eq!(message_command(&key('j'), off), Some(MessageCommand::Move(1)));
    assert_eq!(message_command(&control('j'), off), Some(MessageCommand::Move(10)));
    assert_eq!(
        message_command(&InputEvent::from_key(Key::Up), off),
        Some(MessageCommand::Move(-1))
    );
    assert_eq!(message_command(&control('k'), off), Some(MessageCommand::Move(-10)));
    assert_eq!(message_command(&key('J'), off), Some(MessageCommand::Last));
    assert_eq!(message_command(&key('K'), off), Some(MessageCommand::First));
    assert_eq!(
        message_command(&InputEvent::from_key(Key::Esc), off),
        Some(MessageCommand::RemoveCursor)
    );
    assert_eq!(
        message_command(&key(' '), off),
        Some(MessageCommand::ToggleSelected)
    );
    assert_eq!(
        message_command(&key('u'), off),
        Some(MessageCommand::SetState(State::Unread))
    );
    assert_eq!(
        message_command(&key('r'), off),
        Some(MessageCommand::SetState(State::Read))
    );
    assert_eq!(
        message_command(&key('a'), off),
        Some(MessageCommand::SetState(State::Archived))
    );
    assert_eq!(message_command(&control('x'), off), Some(MessageCommand::Delete));
    assert_eq!(message_command(&key('x'), off), None);
    assert_eq!(message_command(&key('s'), off), None);
    assert_eq!(
        message_command(&InputEvent::from_key(Key::Enter), off),
        Some(MessageCommand::Open)
    );
    assert_eq!(message_command(&InputEvent::from_key(Key::Other), off), None);
}

#[test]
fn test_global_key_is_not_seen_by_the_pane() {
    let mut app = app();
    app.activate_pane(Pane::Mailboxes);
    app.mailboxes.set_cursor(Some(0));
    // With the control key `a` shows the archived messages
    let outcome = handle_key(&mut app, &control('a'));
    assert!(outcome.handled);
    assert!(app.active_states.contains(State::Archived));
    assert_eq!(outcome.requests.len(), 2);
    assert_eq!(app.messages.get_items().len(), 3);
    // Without it `a` archives the mailbox under the cursor
    let outcome = handle_key(&mut app, &key('a'));
    assert!(outcome.handled);
    assert_eq!(outcome.requests.len(), 1);
    assert!(matches!(
        &outcome.requests[0],
        Request::ChangeMessageStates {
            new_state: State::Archived,
            ..
        }
    ));
}

#[test]
fn test_moving_down_into_a_child_filters_locally() {
    let mut app = app();
    app.activate_pane(Pane::Mailboxes);
    // From no mailbox to `a`: the list is filtered without the store
    let outcome = handle_mailbox_key(&mut app, &key('j'));
    assert!(outcome.handled && outcome.requests.is_empty());
    assert_eq!(app.mailboxes.get_cursor(), Some(0));
    assert_eq!(
        app.messages.get_items().iter().map(|m| m.id).collect::<Vec<_>>(),
        vec![2, 1]
    );
    // From `a` to `a/b`, which lies below it: again
    let outcome = handle_mailbox_key(&mut app, &InputEvent::from_key(Key::Down));
    assert!(outcome.requests.is_empty());
    assert_eq!(
        app.messages.get_items().iter().map(|m| m.id).collect::<Vec<_>>(),
        vec![2]
    );
    // From `a/b` to `c`: the store is asked
    let outcome = handle_mailbox_key(&mut app, &key('j'));
    assert_eq!(outcome.requests.len(), 2);
    assert!(matches!(&outcome.requests[1], Request::LoadMessages(f)
        if *f == MessageFilter::new()
            .with_mailbox("c".try_into().unwrap())
            .with_states(vec![State::Unread])));
    // At the end of the list nothing moves, and nothing is asked
    let outcome = handle_mailbox_key(&mut app, &key('j'));
    assert!(outcome.handled && outcome.requests.is_empty());
    // To the parent and on to the sibling
    handle_mailbox_key(&mut app, &key('k'));
    assert_eq!(app.mailboxes.get_cursor(), Some(1));
    let outcome = handle_mailbox_key(&mut app, &key('K'));
    assert_eq!(app.mailboxes.get_cursor(), Some(0));
    assert_eq!(outcome.requests.len(), 2);
    handle_mailbox_key(&mut app, &control('j'));
    assert_eq!(app.mailboxes.get_cursor(), Some(2));
    handle_mailbox_key(&mut app, &control('k'));
    assert_eq!(app.mailboxes.get_cursor(), Some(0));
    // Without a cursor the store is asked for everything
    let outcome = handle_mailbox_key(&mut app, &InputEvent::from_key(Key::Esc));
    assert_eq!(app.mailboxes.get_cursor(), None);
    assert_eq!(outcome.requests.len(), 2);
    // A key that means nothing here
    let outcome = handle_mailbox_key(&mut app, &key('x'));
    assert!(!outcome.handled && outcome.requests.is_empty());
}

#[test]
fn test_message_pane_keys() {
    let mut app = app();
    assert!(handle_message_key(&mut app, &key('J')).handled);
    assert_eq!(app.messages.get_cursor(), Some(2));
    handle_message_key(&mut app, &control('k'));
    assert_eq!(app.messages.get_cursor(), Some(0));
    handle_message_key(&mut app, &control('s'));
    assert_eq!(app.messages.get_selection_mode(), SelectionMode::Select);
    handle_message_key(&mut app, &key('j'));
    assert_eq!(
        app.messages.get_selected_items().iter().map(|m| m.id).collect::<Vec<_>>(),
        vec![3, 2]
    );
    handle_message_key(&mut app, &control('s'));
    assert_eq!(app.messages.get_selection_mode(), SelectionMode::Off);
    handle_message_key(&mut app, &key(' '));
    assert_eq!(
        app.messages.get_selected_items().iter().map(|m| m.id).collect::<Vec<_>>(),
        vec![3]
    );
    handle_message_key(&mut app, &key('g'));
    assert_eq!(app.messages.get_selected_items().len(), 3);
    handle_message_key(&mut app, &key('G'));
    assert_eq!(app.messages.get_selected_items().len(), 0);
    let outcome = handle_message_key(&mut app, &control('x'));
    assert!(matches!(&outcome.requests[0], Request::DeleteMessages { filter, .. }
        if *filter == MessageFilter::new().with_ids(vec![2])));
    assert_eq!(app.messages.get_items().len(), 2);
    let outcome = handle_message_key(&mut app, &key('r'));
    assert!(matches!(&outcome.requests[0], Request::ChangeMessageStates { filter, new_state: State::Read, .. }
        if *filter == MessageFilter::new().with_ids(vec![1])));
    handle_message_key(&mut app, &InputEvent::from_key(Key::Esc));
    assert_eq!(app.messages.get_cursor(), None);
    assert!(!handle_message_key(&mut app, &key('x')).handled);
}

#[test]
fn test_enter_opens_the_first_link() {
    let mut app = app();
    let enter = InputEvent::from_key(Key::Enter);
    // Without a message under the cursor there is nothing to open
    let outcome = handle_pane_key(&mut app, &enter);
    assert!(outcome.handled);
    assert_eq!(outcome.open_url, None);
    app.messages.set_cursor(Some(0));
    let outcome = handle_pane_key(&mut app, &enter);
    assert_eq!(outcome.open_url, Some(String::from("https://example.com/x")));
    app.messages.set_cursor(Some(1));
    assert_eq!(handle_pane_key(&mut app, &enter).open_url, None);
}

#[test]
fn test_global_keys_switch_panes_and_reload() {
    let mut app = app();
    assert_eq!(app.active_pane, Pane::Messages);
    handle_global_key(&mut app, &InputEvent::from_key(Key::Left));
    assert_eq!(app.active_pane, Pane::Mailboxes);
    handle_global_key(&mut app, &InputEvent::from_key(Key::Right));
    assert_eq!(app.active_pane, Pane::Messages);
    handle_global_key(&mut app, &key('1'));
    assert_eq!(app.active_pane, Pane::Mailboxes);
    let outcome = handle_global_key(&mut app, &key('R'));
    assert!(outcome.handled);
    assert_eq!(outcome.requests.len(), 2);
    assert!(!handle_global_key(&mut app, &key('j')).handled);
}

#[test]
fn test_event_loop() {
    let mut app = app();
    let mut events = EventLoop::new();
    // The first round draws in any case
    let round = events.begin_round();
    assert!(round.updated);
    assert!(events.end_round(round, false));
    // A round without events does not
    let round = events.begin_round();
    assert!(!round.updated);
    assert!(!events.end_round(round, false));
    // Unless an answer of the worker was taken in
    assert!(events.end_round(events.begin_round(), true));

    // A key that means nothing changes nothing
    let mut round = events.begin_round();
    let outcome = events.handle_event(&mut app, &mut round, UiEvent::Key(key('x')));
    assert!(!outcome.quit && !round.updated);
    // The wheel moves the cursor of the active pane
    events.handle_event(&mut app, &mut round, UiEvent::ScrollDown);
    events.handle_event(&mut app, &mut round, UiEvent::ScrollDown);
    events.handle_event(&mut app, &mut round, UiEvent::ScrollUp);
    assert!(round.updated);
    assert_eq!(app.messages.get_cursor(), Some(0));
    // A click is remembered
    let mut round = events.begin_round();
    events.handle_event(&mut app, &mut round, UiEvent::Click { column: 3, row: 4 });
    assert!(round.updated);
    assert_eq!(round.click_position, Some(Cell { column: 3, row: 4 }));
    // A resize draws if the size is another one
    let mut round = events.begin_round();
    events.handle_event(&mut app, &mut round, UiEvent::Resize(80, 24));
    assert!(round.updated);
    assert_eq!(events.last_size, Some(Size { columns: 80, rows: 24 }));
    let mut round = events.begin_round();
    events.handle_event(&mut app, &mut round, UiEvent::Resize(80, 24));
    events.handle_event(&mut app, &mut round, UiEvent::Other);
    assert!(!round.updated);
    // The key q ends the program
    let outcome = events.handle_event(&mut app, &mut round, UiEvent::Key(key('q')));
    assert!(outcome.quit);
}

#[test]
fn test_click_activates_the_pane() {
    let mut app = app();
    let layout = AppLayout {
        mailboxes: Area { x: 0, y: 0, width: 20, height: 23 },
        messages: Area { x: 20, y: 0, width: 60, height: 23 },
        status: Area { x: 0, y: 23, width: 70, height: 1 },
        loading: Area { x: 70, y: 23, width: 10, height: 1 },
    };
    activate_clicked_pane(&mut app, &layout, 19, 22);
    assert_eq!(app.active_pane, Pane::Mailboxes);
    activate_clicked_pane(&mut app, &layout, 5, 23);
    assert_eq!(app.active_pane, Pane::Mailboxes);
    activate_clicked_pane(&mut app, &layout, 20, 0);
    assert_eq!(app.active_pane, Pane::Messages);
    assert!(!Area { x: 65535, y: 0, width: 65535, height: 1 }.contains(65534, 0));
    assert!(Area { x: 65535, y: 0, width: 65535, height: 1 }.contains(65535, 0));
}
