//! The decisions of the HTTP server: who may ask, what a request asks for,
//! and what is answered without asking the store.

use vstd::prelude::*;
use crate::filter::MessageFilter;
use crate::message::{NewMessage, State};
use crate::query::{FilterError, filter_of_pairs, form_parsed};
use crate::store::StoreError;
use crate::text::same_text;

verus! {

/// The method of a request.
#[derive(Clone, Copy, Debug, PartialEq, Eq, Structural)]
pub enum Method {
    Get,
    Post,
    Put,
    Delete,
    /// Any other method.
    Other,
}

/// What a request is about.
#[derive(Clone, Copy, Debug, PartialEq, Eq, Structural)]
pub enum Route {
    /// `GET /mailboxes`
    ReadMailboxes,
    /// `GET /messages`
    ReadMessages,
    /// `POST /messages`
    CreateMessages,
    /// `PUT /messages`
    UpdateMessages,
    /// `DELETE /messages`
    DeleteMessages,
}

/// The body of a request, as far as it could be read.
#[derive(Debug)]
pub enum Body {
    /// No body, or one that is neither of the others.
    Unreadable,
    /// One message.
    Message(NewMessage),
    /// A list of messages.
    Messages(Vec<NewMessage>),
    /// A new state, as `{"new_state": ...}`.
    NewState(State),
}

/// What the server asks of the store.
#[derive(Debug)]
pub enum StoreCall {
    LoadMailboxes(MessageFilter),
    LoadMessages(MessageFilter),
    AddMessages(Vec<NewMessage>),
    ChangeState(MessageFilter, State),
    DeleteMessages(MessageFilter),
}

/// What the server does with a request.
#[derive(Debug)]
pub enum Decision {
    /// Answer 403: the request does not carry the token.
    Forbidden,
    /// Answer 404: no such route.
    NotFound,
    /// Answer 400: the request cannot be understood, or asks to delete
    /// without a filter.
    BadRequest(BadRequest),
    /// Ask the store, and answer with what it returns.
    Call(StoreCall),
}

/// Why a request is answered with 400.
#[derive(Clone, Copy, Debug, PartialEq, Eq, Structural)]
pub enum BadRequest {
    /// The query string is not a filter.
    Filter(FilterError),
    /// The body is not what the route takes.
    Body,
    /// A deletion without a filter would delete everything.
    FilterRequired,
}

/// The name and the value of the header that every answer carries.
pub const CORS_HEADER: (&'static str, &'static str) = ("Access-Control-Allow-Origin", "*");

/// The value that the `Authorization` header must have for the token.
pub open spec fn bearer(token: Seq<char>) -> Seq<char> {
    "Bearer "@ + token
}

/// Whether a request may pass: where a token is set, the `Authorization`
/// header must be there and must be `Bearer`, a space, and the token,
/// letter for letter.
pub open spec fn authorized(token: Option<Seq<char>>, header: Option<Seq<char>>) -> bool {
    match token {
        None => true,
        Some(t) => header == Some(bearer(t)),
    }
}

/// The route of a method and a path.
pub open spec fn route_of(method: Method, path: Seq<char>) -> Option<Route> {
    if path == "/mailboxes"@ {
        if method == Method::Get {
            Some(Route::ReadMailboxes)
        } else {
            None
        }
    } else if path == "/messages"@ {
        match method {
            Method::Get => Some(Route::ReadMessages),
            Method::Post => Some(Route::CreateMessages),
            Method::Put => Some(Route::UpdateMessages),
            Method::Delete => Some(Route::DeleteMessages),
            Method::Other => None,
        }
    } else {
        None
    }
}

/// The value of the `Authorization` header for a token.
pub fn authorization_header(token: &str) -> (value: String)
    ensures
        value@ == bearer(token@),
{
    let mut value = "Bearer ".to_owned();
    value.append(token);
    value
}

/// Whether a request with the given `Authorization` header may pass.
pub fn authorize(token: Option<&str>, header: Option<&str>) -> (r: bool)
    ensures
        r == authorized(
            match token {
                Some(t) => Some(t@),
                None => None,
            },
            match header {
                Some(h) => Some(h@),
                None => None,
            },
        ),
{
    match token {
        None => true,
        Some(token) => match header {
            Some(header) => {
                let expected = authorization_header(token);
                same_text(header, expected.as_str())
            },
            None => false,
        },
    }
}

/// The route of a method and a path, if there is one.
pub fn route(method: Method, path: &str) -> (r: Option<Route>)
    ensures
        r == route_of(method, path@),
{
    if same_text(path, "/mailboxes") {
        match method {
            Method::Get => Some(Route::ReadMailboxes),
            _ => None,
        }
    } else if same_text(path, "/messages") {
        match method {
            Method::Get => Some(Route::ReadMessages),
            Method::Post => Some(Route::CreateMessages),
            Method::Put => Some(Route::UpdateMessages),
            Method::Delete => Some(Route::DeleteMessages),
            Method::Other => None,
        }
    } else {
        None
    }
}

/// What the route that creates messages does with the body: it takes one
/// message or a list of messages, and asks the store to add them.
pub fn create_messages(body: Body) -> (d: Decision)
    ensures
        match body {
            Body::Message(m) => d matches Decision::Call(StoreCall::AddMessages(batch)) && batch@
                == seq![m],
            Body::Messages(batch) => d == Decision::Call(StoreCall::AddMessages(batch)),
            _ => d == Decision::BadRequest(BadRequest::Body),
        },
{
    match body {
        Body::Message(message) => {
            let mut batch: Vec<NewMessage> = Vec::new();
            batch.push(message);
            Decision::Call(StoreCall::AddMessages(batch))
        },
        Body::Messages(batch) => Decision::Call(StoreCall::AddMessages(batch)),
        _ => Decision::BadRequest(BadRequest::Body),
    }
}

/// What the route that reads messages does with the filter of the query
/// string: it asks the store for the messages that pass it.
pub fn read_messages(filter: Result<MessageFilter, FilterError>) -> (d: Decision)
    ensures
        match filter {
            Err(e) => d == Decision::BadRequest(BadRequest::Filter(e)),
            Ok(f) => d == Decision::Call(StoreCall::LoadMessages(f)),
        },
{
    match filter {
        Ok(filter) => Decision::Call(StoreCall::LoadMessages(filter)),
        Err(e) => Decision::BadRequest(BadRequest::Filter(e)),
    }
}

/// What the route that changes messages does with the filter of the query
/// string and the body: it takes a new state, and asks the store to put
/// the messages that pass the filter into it.
pub fn update_messages(filter: Result<MessageFilter, FilterError>, body: Body) -> (d: Decision)
    ensures
        match filter {
            Err(e) => d == Decision::BadRequest(BadRequest::Filter(e)),
            Ok(f) => match body {
                Body::NewState(state) => d == Decision::Call(StoreCall::ChangeState(f, state)),
                _ => d == Decision::BadRequest(BadRequest::Body),
            },
        },
{
    match filter {
        Ok(filter) => match body {
            Body::NewState(state) => Decision::Call(StoreCall::ChangeState(filter, state)),
            _ => Decision::BadRequest(BadRequest::Body),
        },
        Err(e) => Decision::BadRequest(BadRequest::Filter(e)),
    }
}

/// What the route that deletes messages does with the filter of the query
/// string: a filter that constrains nothing is refused, and the store is
/// not asked, so that not every message goes; with any other filter the
/// store is asked to delete the messages that pass it.
pub fn delete_messages(filter: Result<MessageFilter, FilterError>) -> (d: Decision)
    ensures
        match filter {
            Err(e) => d == Decision::BadRequest(BadRequest::Filter(e)),
            Ok(f) => if f@.ids is None && f@.mailbox is None && f@.states is None {
                d == Decision::BadRequest(BadRequest::FilterRequired)
            } else {
                d == Decision::Call(StoreCall::DeleteMessages(f))
            },
        },
{
    match filter {
        Ok(filter) => if filter.matches_all() {
            Decision::BadRequest(BadRequest::FilterRequired)
        } else {
            Decision::Call(StoreCall::DeleteMessages(filter))
        },
        Err(e) => Decision::BadRequest(BadRequest::Filter(e)),
    }
}

/// What the route that reads mailboxes does with the filter of the query
/// string: it asks the store for the counts of the messages that pass it.
pub fn read_mailboxes(filter: Result<MessageFilter, FilterError>) -> (d: Decision)
    ensures
        match filter {
            Err(e) => d == Decision::BadRequest(BadRequest::Filter(e)),
            Ok(f) => d == Decision::Call(StoreCall::LoadMailboxes(f)),
        },
{
    match filter {
        Ok(filter) => Decision::Call(StoreCall::LoadMailboxes(filter)),
        Err(e) => Decision::BadRequest(BadRequest::Filter(e)),
    }
}

/// What a route does with the filter of the query string and the body: the
/// routes that read, change or delete take the filter, a deletion only a
/// filter that constrains something; the route that creates takes one
/// message or a list of messages; the route that changes takes a new
/// state.
pub fn decide_route(route: Route, filter: Result<MessageFilter, FilterError>, body: Body) -> (d:
    Decision)
    ensures
        match route {
            Route::CreateMessages => match body {
                Body::Message(m) => d matches Decision::Call(StoreCall::AddMessages(batch))
                    && batch@ == seq![m],
                Body::Messages(batch) => d == Decision::Call(StoreCall::AddMessages(batch)),
                _ => d == Decision::BadRequest(BadRequest::Body),
            },
            _ => match filter {
                Err(e) => d == Decision::BadRequest(BadRequest::Filter(e)),
                Ok(f) => match route {
                    Route::ReadMailboxes => d == Decision::Call(StoreCall::LoadMailboxes(f)),
                    Route::ReadMessages => d == Decision::Call(StoreCall::LoadMessages(f)),
                    Route::UpdateMessages => match body {
                        Body::NewState(state) => d == Decision::Call(
                            StoreCall::ChangeState(f, state),
                        ),
                        _ => d == Decision::BadRequest(BadRequest::Body),
                    },
                    _ => if f@.ids is None && f@.mailbox is None && f@.states is None {
                        d == Decision::BadRequest(BadRequest::FilterRequired)
                    } else {
                        d == Decision::Call(StoreCall::DeleteMessages(f))
                    },
                },
            },
        },
{
    match route {
        Route::CreateMessages => create_messages(body),
        Route::ReadMessages => read_messages(filter),
        Route::UpdateMessages => update_messages(filter, body),
        Route::DeleteMessages => delete_messages(filter),
        Route::ReadMailboxes => read_mailboxes(filter),
    }
}

/// What the server does with a request: a request without the token is
/// forbidden; a request for no route is not found; any other request is
/// decided by its route, with the filter that its query string stands for.
/// In particular a deletion without a query string is refused, and the
/// store is not asked.
pub fn handle_request(
    token: Option<&str>,
    authorization: Option<&str>,
    method: Method,
    path: &str,
    query: &str,
    body: Body,
) -> (d: Decision)
    ensures
        !authorized(
            match token {
                Some(t) => Some(t@),
                None => None,
            },
            match authorization {
                Some(h) => Some(h@),
                None => None,
            },
        ) ==> d == Decision::Forbidden,
        authorized(
            match token {
                Some(t) => Some(t@),
                None => None,
            },
            match authorization {
                Some(h) => Some(h@),
                None => None,
            },
        ) ==> match route_of(method, path@) {
            None => d == Decision::NotFound,
            Some(Route::DeleteMessages) => match filter_of_pairs(form_parsed(query@)) {
                Err(e) => d == Decision::BadRequest(BadRequest::Filter(e)),
                Ok(f) => if f.ids is None && f.mailbox is None && f.states is None {
                    d == Decision::BadRequest(BadRequest::FilterRequired)
                } else {
                    d matches Decision::Call(StoreCall::DeleteMessages(asked)) && asked@ == f
                },
            },
            Some(Route::ReadMailboxes) => match filter_of_pairs(form_parsed(query@)) {
                Err(e) => d == Decision::BadRequest(BadRequest::Filter(e)),
                Ok(f) => d matches Decision::Call(StoreCall::LoadMailboxes(asked)) && asked@ == f,
            },
            Some(Route::ReadMessages) => match filter_of_pairs(form_parsed(query@)) {
                Err(e) => d == Decision::BadRequest(BadRequest::Filter(e)),
                Ok(f) => d matches Decision::Call(StoreCall::LoadMessages(asked)) && asked@ == f,
            },
            Some(Route::UpdateMessages) => match filter_of_pairs(form_parsed(query@)) {
                Err(e) => d == Decision::BadRequest(BadRequest::Filter(e)),
                Ok(f) => match body {
                    Body::NewState(state) => d matches Decision::Call(
                        StoreCall::ChangeState(asked, new_state),
                    ) && asked@ == f && new_state == state,
                    _ => d == Decision::BadRequest(BadRequest::Body),
                },
            },
            Some(Route::CreateMessages) => match body {
                Body::Message(m) => d matches Decision::Call(StoreCall::AddMessages(batch))
                    && batch@ == seq![m],
                Body::Messages(batch) => d == Decision::Call(StoreCall::AddMessages(batch)),
                _ => d == Decision::BadRequest(BadRequest::Body),
            },
        },
        route_of(method, path@) == Some(Route::DeleteMessages) && query@.len() == 0 ==> !(d is Call),
{
    if !authorize(token, authorization) {
        return Decision::Forbidden;
    }
    match route(method, path) {
        None => Decision::NotFound,
        Some(route) => {
            let filter = MessageFilter::from_query_string(query);
            decide_route(route, filter, body)
        },
    }
}

/// The headers of the answer to a request, whatever was decided and
/// whatever the store does: every answer, a refusal too, carries the header
/// that lets pages of any origin read it.
pub fn answer_headers(decision: &Decision) -> (headers: Vec<(&'static str, &'static str)>)
    ensures
        headers@ == seq![CORS_HEADER],
        headers@.contains(CORS_HEADER),
{
    let mut headers: Vec<(&'static str, &'static str)> = Vec::new();
    headers.push(CORS_HEADER);
    assert(headers@[0] == CORS_HEADER);
    headers
}

/// The status of the answer to a request that was decided without the
/// store.
pub fn decision_status(decision: &Decision) -> (status: Option<u16>)
    ensures
        status == match *decision {
            Decision::Forbidden => Some(403u16),
            Decision::NotFound => Some(404u16),
            Decision::BadRequest(_) => Some(400u16),
            Decision::Call(_) => None,
        },
{
    match decision {
        Decision::Forbidden => Some(403),
        Decision::NotFound => Some(404),
        Decision::BadRequest(_) => Some(400),
        Decision::Call(_) => None,
    }
}

/// The status of the answer to a request that the store failed on: 400
/// where the request was at fault, 500 where the store was.
pub fn error_status(error: &StoreError) -> (status: u16)
    ensures
        status == match *error {
            StoreError::EmptyContent => 400u16,
            StoreError::Backend(_) => 500u16,
        },
{
    match error {
        StoreError::EmptyContent => 400,
        StoreError::Backend(_) => 500,
    }
}

} // verus!
