//! A counter of requests that answers whether a request is the latest.

use vstd::prelude::*;

verus! {

/// The id of a request, handed out by a `RequestCounter`.
#[derive(Clone, Copy, Debug, PartialEq, Eq, Structural)]
pub struct RequestId(u64);

impl View for RequestId {
    type V = u64;

    closed spec fn view(&self) -> u64 {
        self.0
    }
}

/// A counter of 64 bits that holds the id of the next request. There is
/// no copy of a counter: those that take ids from it share the one
/// counter, so that no id is handed out twice.
#[derive(Debug)]
pub struct RequestCounter {
    next_id: u64,
}

impl View for RequestCounter {
    type V = u64;

    closed spec fn view(&self) -> u64 {
        self.next_id
    }
}

/// The number that follows `n`; after the largest comes 0.
pub open spec fn following(n: u64) -> u64 {
    if n == u64::MAX {
        0
    } else {
        (n + 1) as u64
    }
}

impl RequestCounter {
    /// A counter whose first request gets the id 0.
    pub fn new() -> (counter: Self)
        ensures
            counter@ == 0,
    {
        RequestCounter { next_id: 0 }
    }

    /// The id of a new request; the counter advances by one.
    pub fn next(&mut self) -> (id: RequestId)
        ensures
            id@ == old(self)@,
            final(self)@ == following(old(self)@),
    {
        let id = self.next_id;
        self.next_id = if id == u64::MAX {
            0
        } else {
            id + 1
        };
        RequestId(id)
    }

    /// Whether no request has taken an id since `req_id` was handed out.
    pub fn is_latest(&self, req_id: &RequestId) -> (r: bool)
        ensures
            r == (self@ == following(req_id@)),
    {
        let after = if req_id.0 == u64::MAX {
            0
        } else {
            req_id.0 + 1
        };
        self.next_id == after
    }
}

} // verus!
