//! A counter that hands out the ids by which a stale answer is told from a
//! fresh one.
//!
//! A request takes an id from `next` when it starts. When its answer
//! arrives, the id is held against `last`: where the two differ, a later
//! request has started meanwhile, and the answer is stale.

use vstd::prelude::*;

verus! {

/// An id handed out by a `MonotonicCounter`.
#[derive(Clone, Copy, Debug, PartialEq, Eq, Structural)]
pub struct Id(u64);

impl View for Id {
    type V = u64;

    closed spec fn view(&self) -> u64 {
        self.0
    }
}

/// The number that follows `n`; after the largest comes 0.
pub open spec fn successor(n: u64) -> u64 {
    if n == u64::MAX {
        0
    } else {
        (n + 1) as u64
    }
}

/// A counter of 64 bits that starts at 0. There is no copy of a counter:
/// those that take ids from it share the one counter, so that no id is
/// handed out twice.
#[derive(Debug)]
pub struct MonotonicCounter {
    last_id: u64,
}

impl View for MonotonicCounter {
    type V = u64;

    closed spec fn view(&self) -> u64 {
        self.last_id
    }
}

impl MonotonicCounter {
    /// A counter that has handed out no id yet.
    pub fn new() -> (counter: Self)
        ensures
            counter@ == 0,
    {
        MonotonicCounter { last_id: 0 }
    }

    /// Advances the counter and returns its new value as an id.
    pub fn next(&mut self) -> (id: Id)
        ensures
            final(self)@ == successor(old(self)@),
            id@ == final(self)@,
            id@ != old(self)@,
    {
        self.last_id = if self.last_id == u64::MAX {
            0
        } else {
            self.last_id + 1
        };
        Id(self.last_id)
    }

    /// The current value of the counter as an id: the id that `next`
    /// returned last.
    pub fn last(&self) -> (id: Id)
        ensures
            id@ == self@,
    {
        Id(self.last_id)
    }

    /// Whether `id` is the id that `next` returned last.
    pub fn is_last(&self, id: Id) -> (r: bool)
        ensures
            r == (id@ == self@),
    {
        id.0 == self.last_id
    }
}

/// Of two ids taken one after the other, the second is the last one and the
/// first is not: an answer stamped with the first is stale as soon as the
/// second request has started.
pub proof fn lemma_second_request_supersedes(counter: u64)
    ensures
        ({
            let first = successor(counter);
            let second = successor(first);
            first != second
        }),
{
}

/// The value of a counter that showed `counter` after `n` further ids were
/// taken.
pub open spec fn advanced(counter: u64, n: nat) -> u64
    decreases n,
{
    if n == 0 {
        counter
    } else {
        successor(advanced(counter, (n - 1) as nat))
    }
}

/// Taking `n` ids adds `n` to the counter, and starts again at 0 after the
/// largest number.
pub proof fn lemma_advanced(counter: u64, n: nat)
    requires
        n < 0x1_0000_0000_0000_0000int,
    ensures
        advanced(counter, n) == (if counter + n <= u64::MAX {
            counter + n
        } else {
            counter + n - 0x1_0000_0000_0000_0000int
        }),
    decreases n,
{
    if n > 0 {
        lemma_advanced(counter, (n - 1) as nat);
    }
}

/// An id stays the last one exactly until the next id is taken: after `n`
/// further ids, with `n` between 1 and 2^64 - 1, the counter does not show
/// it.
pub proof fn lemma_later_request_supersedes(counter: u64, n: nat)
    requires
        0 < n < 0x1_0000_0000_0000_0000int,
    ensures
        advanced(counter, n) != counter,
{
    lemma_advanced(counter, n);
}

} // verus!
