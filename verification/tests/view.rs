use mailbox::app::App;
use mailbox::cli::{
    create_formatter, plan_command, state_from_add_message_state,
    states_from_view_message_state, AddMessageState, Command, CommandPlan, ConfigSubcommand,
    FormatterOptions, ImportMessageFormat, ViewMessageState,
};
use mailbox::decimal::{format_u128, format_u64, read_u32};
use mailbox::filter::MessageFilter;
use mailbox::http_backend::Operation;
use mailbox::mailbox_tree::MailboxRow;
use mailbox::message::{MailboxInfo, Message, NewMessage, State};
use mailbox::multiselect_list::SelectionMode;
use mailbox::navigable_list::{Keyed, NavigableList};
use mailbox::time_text::{find_local_time, format_time, relative_time, TimestampFormat};
use mailbox::view::{
    list_title, mailbox_label, pane_titles, render_loading, render_mailboxes, render_message,
    render_messages, render_status, Span, SpanStyle,
};
use mailbox::worker::Response;

fn span(text: &str, style: SpanStyle) -> Span {
    Span {
        text: String::from(text),
        style,
    }
}

fn message(id: u32, state: State, timestamp: i64) -> Message {
    Message {
        id,
        timestamp,
        mailbox: "a/b".try_into().unwrap(),
        content: format!("content {id}"),
        state,
    }
}

#[test]
fn test_mailbox_label() {
    let row = |name: &str, depth: usize, message_count: usize| MailboxRow {
        mailbox: name.try_into().unwrap(),
        depth,
        message_count,
    };
    assert_eq!(mailbox_label(&row("a", 0, 2)), "a (2)");
    assert_eq!(mailbox_label(&row("a/b/c", 2, 10)), "  c (10)");
    assert_eq!(mailbox_label(&row("a/b", 1, 0)), " b (0)");
}

#[test]
fn test_list_title() {
    assert_eq!(list_title("Mailboxes", None, 0), "Mailboxes (0)");
    assert_eq!(list_title("Messages", Some(0), 12), "Messages (1/12)");
    assert_eq!(
        list_title("Messages", Some(usize::MAX), 1),
        format!("Messages ({}/1)", usize::MAX as u128 + 1)
    );
}

#[test]
fn test_render_status() {
    let (mut app, _) = App::new(None, vec![State::Unread, State::Archived]);
    assert_eq!(
        render_status(&app),
        vec![
            span(" ", SpanStyle::Plain),
            span(" unread ", SpanStyle::Active),
            span(" ", SpanStyle::Plain),
            span(" read ", SpanStyle::Plain),
            span(" ", SpanStyle::Plain),
            span(" archived ", SpanStyle::Active),
            span("   ", SpanStyle::Plain),
            span("", SpanStyle::Note),
        ]
    );
    app.messages.set_selection_mode(SelectionMode::Select);
    assert_eq!(render_status(&app)[7], span("selecting", SpanStyle::Note));
    app.messages.set_selection_mode(SelectionMode::Deselect);
    assert_eq!(render_status(&app)[7], span("deselecting", SpanStyle::Note));
}

#[test]
fn test_render_loading() {
    assert_eq!(render_loading(0), "");
    assert_eq!(render_loading(1), "Loading...");
    assert_eq!(render_loading(usize::MAX), "Loading...");
}

#[test]
fn test_render_message() {
    let now = 1640995200;
    assert_eq!(
        render_message(&message(1, State::Unread, now - 3600), true, now),
        vec![
            span("• ", SpanStyle::Bullet),
            span("* ", SpanStyle::Unread),
            span("content 1", SpanStyle::Plain),
            span(" @ an hour ago", SpanStyle::Time),
        ]
    );
    assert_eq!(
        render_message(&message(2, State::Read, now + 2 * 86400), false, now),
        vec![
            span("  ", SpanStyle::Plain),
            span("  ", SpanStyle::Plain),
            span("content 2", SpanStyle::Plain),
            span(" @ in 2 days", SpanStyle::Time),
        ]
    );
    assert_eq!(
        render_message(&message(3, State::Archived, now), false, now)[1],
        span("- ", SpanStyle::Plain)
    );
}

#[test]
fn test_render_lists() {
    let (mut app, _) = App::new(None, vec![State::Unread]);
    app.handle_worker_response(Response::InitialLoad {
        mailboxes: vec![MailboxInfo {
            name: "a/b".try_into().unwrap(),
            message_count: 2,
        }],
        messages: vec![message(2, State::Unread, 50), message(1, State::Unread, 40)],
        initial_mailbox: Some("a/b".try_into().unwrap()),
    });
    app.messages.set_item_selected(app.messages.get_items()[1].get_key(), true);
    assert_eq!(render_mailboxes(&app), vec!["a (2)", " b (2)"]);
    let lines = render_messages(&app, 100);
    assert_eq!(lines.len(), 2);
    assert_eq!(lines[0][0], span("  ", SpanStyle::Plain));
    assert_eq!(lines[1][0], span("• ", SpanStyle::Bullet));
    assert_eq!(lines[1][3], span(" @ a minute ago", SpanStyle::Time));
    assert_eq!(
        pane_titles(&app),
        (String::from("Mailboxes (2/2)"), String::from("Messages (2)"))
    );
}

#[test]
fn test_times() {
    assert_eq!(relative_time(0, 0), "now");
    assert_eq!(relative_time(i64::MIN, i64::MAX), relative_time(-9_223_372_036_854_775, 0));
    let local = vec![
        (1640995200, String::from("2022-01-01 01:00:00 +01:00")),
        (5, String::from("five")),
        (1640995200, String::from("later entry")),
    ];
    assert_eq!(
        format_time(TimestampFormat::Utc, 1640995200, 7, &local),
        "2022-01-01 00:00:00 UTC"
    );
    assert_eq!(format_time(TimestampFormat::Utc, i64::MAX, 0, &local), "");
    assert_eq!(
        format_time(TimestampFormat::Relative, 100, 40, &local),
        "in a minute"
    );
    assert_eq!(
        format_time(TimestampFormat::Local, 1640995200, 0, &local),
        "2022-01-01 01:00:00 +01:00"
    );
    assert_eq!(format_time(TimestampFormat::Local, 5, 0, &local), "five");
    assert_eq!(format_time(TimestampFormat::Local, 6, 0, &local), "");
    assert_eq!(find_local_time(&local, 5), "five");
    assert_eq!(find_local_time(&vec![], 5), "");
}

#[test]
fn test_decimal() {
    assert_eq!(format_u64(0), "0");
    assert_eq!(format_u64(10), "10");
    assert_eq!(format_u64(u64::MAX), "18446744073709551615");
    assert_eq!(format_u128(u128::MAX), u128::MAX.to_string());
    let read = |text: &str| {
        let chars: Vec<char> = text.chars().collect();
        read_u32(&chars, 0, chars.len())
    };
    assert_eq!(read("0"), Some(0));
    assert_eq!(read("+12"), Some(12));
    assert_eq!(read("0012"), Some(12));
    assert_eq!(read("4294967295"), Some(u32::MAX));
    assert_eq!(read("4294967296"), None);
    assert_eq!(read("99999999999999999999999999"), None);
    for text in ["", "+", "-1", "1 ", "1_0", "١"] {
        assert_eq!(read(text), None);
        assert!(text.parse::<u32>().is_err());
    }
    let chars: Vec<char> = "a,17,b".chars().collect();
    assert_eq!(read_u32(&chars, 2, 4), Some(17));
}

#[test]
fn test_states_from_view_message_state() {
    assert_eq!(
        states_from_view_message_state(ViewMessageState::Unread),
        vec![State::Unread]
    );
    assert_eq!(
        states_from_view_message_state(ViewMessageState::Read),
        vec![State::Read]
    );
    assert_eq!(
        states_from_view_message_state(ViewMessageState::Archived),
        vec![State::Archived]
    );
    assert_eq!(
        states_from_view_message_state(ViewMessageState::Unarchived),
        vec![State::Unread, State::Read]
    );
    assert_eq!(
        states_from_view_message_state(ViewMessageState::All),
        vec![State::Unread, State::Read, State::Archived]
    );
    assert_eq!(
        state_from_add_message_state(AddMessageState::Archived),
        State::Archived
    );
}

#[test]
fn test_plan_command() {
    let mailbox = || Some("a".try_into().unwrap());
    let scoped = |states: Vec<State>| MessageFilter::new().with_mailbox_option(mailbox()).with_states(states);
    assert!(matches!(
        plan_command(Command::Add {
            mailbox: "a".try_into().unwrap(),
            content: String::from("c"),
            state: AddMessageState::Read
        }),
        CommandPlan::Import(batch) if batch == vec![NewMessage {
            mailbox: "a".try_into().unwrap(),
            content: String::from("c"),
            state: Some(State::Read)
        }]
    ));
    assert!(matches!(
        plan_command(Command::Import { format: ImportMessageFormat::Json }),
        CommandPlan::ImportInput(ImportMessageFormat::Json)
    ));
    assert!(matches!(
        plan_command(Command::View { mailbox: mailbox(), state: ViewMessageState::Unarchived, full_output: true }),
        CommandPlan::Run(Operation::LoadMessages(f)) if f == scoped(vec![State::Unread, State::Read])
    ));
    assert!(matches!(
        plan_command(Command::Read { mailbox: None }),
        CommandPlan::Run(Operation::ChangeState(f, State::Read))
            if f == MessageFilter::new().with_states(vec![State::Unread])
    ));
    assert!(matches!(
        plan_command(Command::Archive { mailbox: mailbox() }),
        CommandPlan::Run(Operation::ChangeState(f, State::Archived))
            if f == scoped(vec![State::Unread, State::Read])
    ));
    assert!(matches!(
        plan_command(Command::Clear { mailbox: mailbox() }),
        CommandPlan::Run(Operation::DeleteMessages(f)) if f == scoped(vec![State::Archived])
    ));
    assert!(matches!(
        plan_command(Command::Tui { mailbox: mailbox(), state: ViewMessageState::All }),
        CommandPlan::Tui { mailbox: m, states }
            if m == mailbox() && states == vec![State::Unread, State::Read, State::Archived]
    ));
    assert!(matches!(
        plan_command(Command::Config { subcommand: ConfigSubcommand::Locate }),
        CommandPlan::LocateConfig
    ));
    assert!(matches!(
        plan_command(Command::Config { subcommand: ConfigSubcommand::Edit }),
        CommandPlan::EditConfig
    ));
}

#[test]
fn test_create_formatter() {
    let options = FormatterOptions {
        tty: true,
        truncate: true,
        size: Some((20, 30)),
        color: false,
        no_color: true,
        environment_color: true,
        timestamp_format: Some(TimestampFormat::Utc),
    };
    let messages: Vec<Message> = (0..40).map(|i| message(i, State::Read, 1640995200)).collect();
    // 26 lines of at most 20 columns
    let text = create_formatter(&options).format_messages(&messages);
    let lines: Vec<&str> = text.lines().collect();
    assert_eq!(lines.len(), 26);
    assert_eq!(lines[0], "  con… [a/b] @ 2022…");
    assert_eq!(lines[25], "  con… [a/b] @ 2022…");
    // At least 8 lines, whatever the terminal
    let small = FormatterOptions { size: Some((200, 5)), ..options };
    assert_eq!(create_formatter(&small).format_messages(&messages).lines().count(), 8);
    // 80 by 8 where the size is not known
    let unknown = FormatterOptions { size: None, ..options };
    assert_eq!(create_formatter(&unknown).format_messages(&messages).lines().count(), 8);
    // No limits where the output is not cut or goes elsewhere
    let full = FormatterOptions { truncate: false, ..options };
    assert_eq!(create_formatter(&full).format_messages(&messages).lines().count(), 40);
    let piped = FormatterOptions { tty: false, ..options };
    assert_eq!(create_formatter(&piped).format_messages(&messages).lines().count(), 40);
}
