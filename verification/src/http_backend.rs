//! The requests by which the operations of a store are asked of a remote
//! server, and how its answers are read. Sending the requests is left to
//! an HTTP client.

use vstd::prelude::*;
use crate::filter::MessageFilter;
use crate::message::{NewMessage, State};
use crate::query::{pair_views, query_of, query_pairs};
use crate::server::{Method, authorization_header, bearer};

verus! {

/// An operation of a store, as it is asked of a server.
#[derive(Debug)]
pub enum Operation {
    AddMessages(Vec<NewMessage>),
    LoadMessages(MessageFilter),
    ChangeState(MessageFilter, State),
    DeleteMessages(MessageFilter),
    LoadMailboxes(MessageFilter),
}

/// What a request carries in its body.
#[derive(Debug)]
pub enum Payload {
    /// Nothing.
    Empty,
    /// The messages, as a list.
    Messages(Vec<NewMessage>),
    /// The state, as `{"new_state": ...}`.
    NewState(State),
}

/// A request to the server.
#[derive(Debug)]
pub struct HttpRequest {
    pub method: Method,
    /// The address: the address of the server and the path of the route.
    pub url: String,
    /// The pairs of the query string: those of the filter.
    pub query: Vec<(String, String)>,
    pub body: Payload,
}

/// The address of the route for messages or for mailboxes.
pub open spec fn route_url(api_url: Seq<char>, mailboxes: bool) -> Seq<char> {
    api_url + if mailboxes {
        "/mailboxes"@
    } else {
        "/messages"@
    }
}

fn endpoint(api_url: &str, mailboxes: bool) -> (url: String)
    ensures
        url@ == route_url(api_url@, mailboxes),
{
    let mut url = api_url.to_owned();
    url.append(if mailboxes {
        "/mailboxes"
    } else {
        "/messages"
    });
    url
}

/// The request that asks the operation of the server at `api_url`: adding
/// posts the messages to `/messages`; loading gets `/messages`; changing
/// states puts the new state to `/messages`; deleting deletes `/messages`;
/// counting gets `/mailboxes`. All but adding carry the filter as query.
pub fn plan_request(api_url: &str, operation: Operation) -> (request: HttpRequest)
    ensures
        match operation {
            Operation::AddMessages(messages) => {
                &&& request.method == Method::Post
                &&& request.url@ == route_url(api_url@, false)
                &&& request.query@.len() == 0
                &&& request.body == Payload::Messages(messages)
            },
            Operation::LoadMessages(filter) => {
                &&& request.method == Method::Get
                &&& request.url@ == route_url(api_url@, false)
                &&& pair_views(request.query@) == query_pairs(query_of(filter@))
                &&& request.body == Payload::Empty
            },
            Operation::ChangeState(filter, new_state) => {
                &&& request.method == Method::Put
                &&& request.url@ == route_url(api_url@, false)
                &&& pair_views(request.query@) == query_pairs(query_of(filter@))
                &&& request.body == Payload::NewState(new_state)
            },
            Operation::DeleteMessages(filter) => {
                &&& request.method == Method::Delete
                &&& request.url@ == route_url(api_url@, false)
                &&& pair_views(request.query@) == query_pairs(query_of(filter@))
                &&& request.body == Payload::Empty
            },
            Operation::LoadMailboxes(filter) => {
                &&& request.method == Method::Get
                &&& request.url@ == route_url(api_url@, true)
                &&& pair_views(request.query@) == query_pairs(query_of(filter@))
                &&& request.body == Payload::Empty
            },
        },
{
    match operation {
        Operation::AddMessages(messages) => HttpRequest {
            method: Method::Post,
            url: endpoint(api_url, false),
            query: Vec::new(),
            body: Payload::Messages(messages),
        },
        Operation::LoadMessages(filter) => HttpRequest {
            method: Method::Get,
            url: endpoint(api_url, false),
            query: filter.to_query().to_pairs(),
            body: Payload::Empty,
        },
        Operation::ChangeState(filter, new_state) => HttpRequest {
            method: Method::Put,
            url: endpoint(api_url, false),
            query: filter.to_query().to_pairs(),
            body: Payload::NewState(new_state),
        },
        Operation::DeleteMessages(filter) => HttpRequest {
            method: Method::Delete,
            url: endpoint(api_url, false),
            query: filter.to_query().to_pairs(),
            body: Payload::Empty,
        },
        Operation::LoadMailboxes(filter) => HttpRequest {
            method: Method::Get,
            url: endpoint(api_url, true),
            query: filter.to_query().to_pairs(),
            body: Payload::Empty,
        },
    }
}

/// The headers that every request carries: `Authorization` with the token
/// where there is one, and nothing else.
pub fn default_headers(api_token: Option<&str>) -> (headers: Vec<(String, String)>)
    ensures
        pair_views(headers@) == match api_token {
            Some(token) => seq![("Authorization"@, bearer(token@))],
            None => seq![],
        },
{
    let mut headers: Vec<(String, String)> = Vec::new();
    if let Some(token) = api_token {
        headers.push(("Authorization".to_owned(), authorization_header(token)));
    }
    headers
}

/// Whether a status says that the request succeeded: 200 to 299.
pub fn is_success(status: u16) -> (r: bool)
    ensures
        r == (200 <= status <= 299),
{
    200 <= status && status <= 299
}

/// The text of the error for an answer that says that the request failed:
/// it names the address, the status and the body of the answer.
pub open spec fn failure_text(url: Seq<char>, status: Seq<char>, body: Seq<char>) -> Seq<char> {
    "Request to "@ + url + " failed with status code "@ + status + "\n\nResponse:"@ + body
}

/// The text of the error for an answer that says that the request failed.
pub fn make_error(url: &str, status: &str, body: &str) -> (text: String)
    ensures
        text@ == failure_text(url@, status@, body@),
{
    let mut text = "Request to ".to_owned();
    text.append(url);
    text.append(" failed with status code ");
    text.append(status);
    text.append("\n\nResponse:");
    text.append(body);
    text
}

/// A store on a server: the address of the server, and the token that
/// the server asks for, if it asks for one.
#[derive(Debug, PartialEq, Eq)]
pub struct HttpBackend {
    api_url: String,
    api_token: Option<String>,
}

impl HttpBackend {
    /// The address of the server.
    pub closed spec fn url(&self) -> Seq<char> {
        self.api_url@
    }

    /// The token, if there is one.
    pub closed spec fn token(&self) -> Option<Seq<char>> {
        match self.api_token {
            Some(t) => Some(t@),
            None => None,
        }
    }

    /// The store on the server at `api_url`.
    pub fn new(api_url: String, api_token: Option<String>) -> (backend: Self)
        ensures
            backend.url() == api_url@,
            backend.token() == match api_token {
                Some(t) => Some(t@),
                None => None,
            },
    {
        HttpBackend { api_url, api_token }
    }

    /// The headers that every request to the server carries.
    pub fn headers(&self) -> (headers: Vec<(String, String)>)
        ensures
            pair_views(headers@) == match self.token() {
                Some(token) => seq![("Authorization"@, bearer(token))],
                None => seq![],
            },
    {
        match &self.api_token {
            Some(token) => default_headers(Some(token.as_str())),
            None => default_headers(None),
        }
    }

    /// The request that asks the operation of the server, as `plan_request`
    /// says for the address of the server.
    pub fn request(&self, operation: Operation) -> (request: HttpRequest)
        ensures
            request.url@ == route_url(self.url(), operation is LoadMailboxes),
            request.method == match operation {
                Operation::AddMessages(_) => Method::Post,
                Operation::LoadMessages(_) => Method::Get,
                Operation::ChangeState(_, _) => Method::Put,
                Operation::DeleteMessages(_) => Method::Delete,
                Operation::LoadMailboxes(_) => Method::Get,
            },
            match operation {
                Operation::AddMessages(messages) => request.query@.len() == 0 && request.body
                    == Payload::Messages(messages),
                Operation::LoadMessages(filter) => pair_views(request.query@) == query_pairs(
                    query_of(filter@),
                ) && request.body == Payload::Empty,
                Operation::ChangeState(filter, new_state) => pair_views(request.query@)
                    == query_pairs(query_of(filter@)) && request.body == Payload::NewState(
                    new_state,
                ),
                Operation::DeleteMessages(filter) => pair_views(request.query@) == query_pairs(
                    query_of(filter@),
                ) && request.body == Payload::Empty,
                Operation::LoadMailboxes(filter) => pair_views(request.query@) == query_pairs(
                    query_of(filter@),
                ) && request.body == Payload::Empty,
            },
    {
        plan_request(self.api_url.as_str(), operation)
    }
}

} // verus!
