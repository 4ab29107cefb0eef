use mailbox::cli::ImportMessageFormat;
use mailbox::import::{
    accepted_messages, read_json_fields, read_messages_stdin, ImportError, JsonField,
};
use mailbox::mailbox::MailboxError;
use mailbox::message::{NewMessage, State};

fn read(stdin: &str, format: ImportMessageFormat) -> Vec<NewMessage> {
    accepted_messages(read_messages_stdin(stdin, format))
}

fn message(mailbox: &str, content: &str, state: Option<State>) -> NewMessage {
    NewMessage {
        mailbox: mailbox.try_into().unwrap(),
        content: String::from(content),
        state,
    }
}

#[test]
fn import_test_empty() {
    let stdin = "";
    assert!(read(stdin, ImportMessageFormat::Tsv).is_empty());
    assert!(read(stdin, ImportMessageFormat::Json).is_empty());
}

#[test]
fn import_test_tsv() {
    let stdin = "1\na\tb\nfoo\tbar\tread\nA\tB\tC\tD";
    assert_eq!(
        read(stdin, ImportMessageFormat::Tsv),
        vec![message("a", "b", None), message("foo", "bar", Some(State::Read))]
    );
}

#[test]
fn import_test_json() {
    let stdin = r#"{"mailbox":"1"}
{"mailbox":"a","content":"b"}
{"mailbox":"foo","content":"bar","state":"read"}
{"mailbox":"A","content":"B","unknown":"C"}"#;
    assert_eq!(
        read(stdin, ImportMessageFormat::Json),
        vec![message("a", "b", None), message("foo", "bar", Some(State::Read))]
    );
}

#[test]
fn import_test_tsv_outcomes() {
    let stdin = "a\tb\r\n\r\n\nx\n/a\tb\na\tb\tnew\na\tb\t\na\t\tarchived\n";
    assert_eq!(
        read_messages_stdin(stdin, ImportMessageFormat::Tsv),
        vec![
            Ok(message("a", "b", None)),
            Err(ImportError::FieldCount),
            Err(ImportError::Mailbox(MailboxError::LeadingSlash)),
            Err(ImportError::State),
            Ok(message("a", "b", None)),
            Ok(message("a", "", Some(State::Archived))),
        ]
    );
}

#[test]
fn import_test_json_outcomes() {
    let stdin = r#"not json
[1, 2]
{"mailbox":"a","content":5}
{"mailbox":"a/","content":"b"}
{"content":"b"}
{"mailbox":"a","content":"b","state":null}
{"mailbox":"a","content":"b","state":"done"}
{"state":"unread","content":"ü","mailbox":"a/é"}"#;
    assert_eq!(
        read_messages_stdin(stdin, ImportMessageFormat::Json),
        vec![
            Err(ImportError::Json),
            Err(ImportError::Json),
            Err(ImportError::FieldKind),
            Err(ImportError::Mailbox(MailboxError::TrailingSlash)),
            Err(ImportError::MissingField),
            Ok(message("a", "b", None)),
            Err(ImportError::State),
            Ok(message("a/é", "ü", Some(State::Unread))),
        ]
    );
}

#[test]
fn import_test_json_fields() {
    let text = |t: &str| JsonField::Text(String::from(t));
    assert_eq!(
        read_json_fields(vec![
            (String::from("content"), text("c")),
            (String::from("mailbox"), text("m")),
        ]),
        Ok(message("m", "c", None))
    );
    assert_eq!(
        read_json_fields(vec![
            (String::from("mailbox"), text("m")),
            (String::from("state"), JsonField::Other),
        ]),
        Err(ImportError::FieldKind)
    );
    assert_eq!(
        read_json_fields(vec![(String::from("mailbox"), JsonField::Null)]),
        Err(ImportError::FieldKind)
    );
    assert_eq!(
        read_json_fields(vec![(String::from("other"), JsonField::Null)]),
        Err(ImportError::UnknownField)
    );
}
