use mailbox::filter::MessageFilter;
use mailbox::message::{NewMessage, State};
use mailbox::query::FilterError;
use mailbox::server::{
    authorization_header, authorize, decide_route, decision_status, error_status, handle_request,
    route, BadRequest, Body, Decision, Method, Route, StoreCall, CORS_HEADER,
};
use mailbox::store::StoreError;

fn get(token: Option<&str>, authorization: Option<&str>, query: &str) -> Decision {
    handle_request(
        token,
        authorization,
        Method::Get,
        "/messages",
        query,
        Body::Unreadable,
    )
}

fn message(content: &str, state: Option<State>) -> NewMessage {
    NewMessage {
        mailbox: "my-script".try_into().unwrap(),
        content: String::from(content),
        state,
    }
}

#[test]
fn main_test_missing_authorization_header() {
    let decision = get(Some("token"), None, "");
    assert!(matches!(decision, Decision::Forbidden));
    assert_eq!(decision_status(&decision), Some(403));
}

#[test]
fn main_test_invalid_authorization_header() {
    assert!(matches!(
        get(Some("token"), Some("Bearer invalid"), ""),
        Decision::Forbidden
    ));
    assert!(matches!(
        get(Some("token"), Some("bearer token"), ""),
        Decision::Forbidden
    ));
    assert!(matches!(
        get(Some("token"), Some("Bearer token "), ""),
        Decision::Forbidden
    ));
}

#[test]
fn test_extraneous_authorization_header() {
    assert!(matches!(
        get(None, Some("Bearer token"), ""),
        Decision::Call(StoreCall::LoadMessages(_))
    ));
}

#[test]
fn test_valid_authorization_header() {
    assert!(matches!(
        get(Some("token"), Some("Bearer token"), ""),
        Decision::Call(StoreCall::LoadMessages(_))
    ));
    assert!(authorize(Some("token"), Some(&authorization_header("token"))));
    assert!(authorize(None, None));
    assert!(!authorize(Some(""), None));
    assert!(authorize(Some(""), Some("Bearer ")));
}

#[test]
fn main_test_cors_header() {
    assert_eq!(CORS_HEADER, ("Access-Control-Allow-Origin", "*"));
}

#[test]
fn main_test_filter_ids() {
    assert!(matches!(get(None, None, "ids=1"),
        Decision::Call(StoreCall::LoadMessages(f)) if f == MessageFilter::new().with_ids(vec![1])));
    assert!(matches!(get(None, None, "ids=1,2,3"),
        Decision::Call(StoreCall::LoadMessages(f)) if f == MessageFilter::new().with_ids(vec![1, 2, 3])));
    let decision = get(None, None, "ids=foo");
    assert!(matches!(
        decision,
        Decision::BadRequest(BadRequest::Filter(FilterError::InvalidId))
    ));
    assert_eq!(decision_status(&decision), Some(400));
}

#[test]
fn main_test_filter_mailbox() {
    assert!(matches!(get(None, None, "mailbox=foo"),
        Decision::Call(StoreCall::LoadMessages(f))
            if f == MessageFilter::new().with_mailbox("foo".try_into().unwrap())));
}

#[test]
fn main_test_filter_states() {
    assert!(matches!(get(None, None, "states=unread"),
        Decision::Call(StoreCall::LoadMessages(f))
            if f == MessageFilter::new().with_states(vec![State::Unread])));
    assert!(matches!(get(None, None, "states=read,archived"),
        Decision::Call(StoreCall::LoadMessages(f))
            if f == MessageFilter::new().with_states(vec![State::Read, State::Archived])));
    assert!(matches!(
        get(None, None, "states=unread,foo"),
        Decision::BadRequest(BadRequest::Filter(FilterError::InvalidState))
    ));
}

#[test]
fn main_test_filter_multiple() {
    assert!(matches!(get(None, None, "ids=1,2,3&mailbox=foo&states=unread,read"),
        Decision::Call(StoreCall::LoadMessages(f))
            if f == MessageFilter::new()
                .with_ids(vec![1, 2, 3])
                .with_mailbox("foo".try_into().unwrap())
                .with_states(vec![State::Unread, State::Read])));
}

#[test]
fn main_test_delete_no_filter() {
    let decision = handle_request(None, None, Method::Delete, "/messages", "", Body::Unreadable);
    assert!(matches!(
        decision,
        Decision::BadRequest(BadRequest::FilterRequired)
    ));
    assert_eq!(decision_status(&decision), Some(400));
}

#[test]
fn main_test_messages() {
    let decision = get(None, None, "");
    assert!(matches!(&decision,
        Decision::Call(StoreCall::LoadMessages(f)) if f.matches_all()));
    assert_eq!(decision_status(&decision), None);
}

#[test]
fn main_test_mailboxes() {
    assert!(matches!(
        handle_request(None, None, Method::Get, "/mailboxes", "", Body::Unreadable),
        Decision::Call(StoreCall::LoadMailboxes(f)) if f.matches_all()));
}

#[test]
fn main_test_create_single_message() {
    let decision = handle_request(
        None,
        None,
        Method::Post,
        "/messages",
        "",
        Body::Message(message("Hello, world!", Some(State::Read))),
    );
    assert!(matches!(decision,
        Decision::Call(StoreCall::AddMessages(batch))
            if batch == vec![message("Hello, world!", Some(State::Read))]));
}

#[test]
fn main_test_create_multiple_messages() {
    let batch = || {
        vec![
            message("Hello, world!", Some(State::Archived)),
            message("Hello, universe!", None),
        ]
    };
    let decision = handle_request(
        None,
        None,
        Method::Post,
        "/messages",
        "",
        Body::Messages(batch()),
    );
    assert!(matches!(decision,
        Decision::Call(StoreCall::AddMessages(asked)) if asked == batch()));
}

#[test]
fn main_test_update_messages() {
    let decision = handle_request(
        None,
        None,
        Method::Put,
        "/messages",
        "states=unread",
        Body::NewState(State::Read),
    );
    assert!(matches!(decision,
        Decision::Call(StoreCall::ChangeState(f, State::Read))
            if f == MessageFilter::new().with_states(vec![State::Unread])));
}

#[test]
fn main_test_delete_messages() {
    let decision = handle_request(
        None,
        None,
        Method::Delete,
        "/messages",
        "states=unread",
        Body::Unreadable,
    );
    assert!(matches!(decision,
        Decision::Call(StoreCall::DeleteMessages(f))
            if f == MessageFilter::new().with_states(vec![State::Unread])));
}

#[test]
fn test_delete_with_an_empty_list_is_a_filter() {
    // An empty list of ids admits nothing, and so deletes nothing
    assert!(matches!(
        handle_request(None, None, Method::Delete, "/messages", "ids=", Body::Unreadable),
        Decision::Call(StoreCall::DeleteMessages(f)) if f == MessageFilter::new().with_ids(vec![])));
}

#[test]
fn test_routes() {
    assert_eq!(route(Method::Get, "/mailboxes"), Some(Route::ReadMailboxes));
    assert_eq!(route(Method::Post, "/mailboxes"), None);
    assert_eq!(route(Method::Get, "/messages"), Some(Route::ReadMessages));
    assert_eq!(route(Method::Post, "/messages"), Some(Route::CreateMessages));
    assert_eq!(route(Method::Put, "/messages"), Some(Route::UpdateMessages));
    assert_eq!(route(Method::Delete, "/messages"), Some(Route::DeleteMessages));
    assert_eq!(route(Method::Other, "/messages"), None);
    assert_eq!(route(Method::Get, "/messages/"), None);
    let decision = handle_request(None, None, Method::Get, "/", "", Body::Unreadable);
    assert!(matches!(decision, Decision::NotFound));
    assert_eq!(decision_status(&decision), Some(404));
    // The token is asked for before the route is looked at
    assert!(matches!(
        handle_request(Some("t"), None, Method::Get, "/", "", Body::Unreadable),
        Decision::Forbidden
    ));
}

#[test]
fn test_bodies() {
    assert!(matches!(
        decide_route(Route::CreateMessages, Ok(MessageFilter::new()), Body::Unreadable),
        Decision::BadRequest(BadRequest::Body)
    ));
    assert!(matches!(
        decide_route(
            Route::CreateMessages,
            Err(FilterError::UnknownField),
            Body::Messages(vec![])
        ),
        Decision::Call(StoreCall::AddMessages(_))
    ));
    assert!(matches!(
        decide_route(
            Route::UpdateMessages,
            Ok(MessageFilter::new()),
            Body::Messages(vec![])
        ),
        Decision::BadRequest(BadRequest::Body)
    ));
    assert!(matches!(
        decide_route(
            Route::UpdateMessages,
            Err(FilterError::DuplicateField),
            Body::NewState(State::Read)
        ),
        Decision::BadRequest(BadRequest::Filter(FilterError::DuplicateField))
    ));
}

#[test]
fn test_error_status() {
    assert_eq!(error_status(&StoreError::EmptyContent), 400);
    assert_eq!(error_status(&StoreError::Backend(String::from("disk"))), 500);
}
