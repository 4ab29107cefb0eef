//! Filters: a composable predicate over the id, the mailbox and the state of
//! a message, used both to match messages in memory and to build the
//! condition that a storage engine evaluates.

use vstd::prelude::*;
use crate::mailbox::{Mailbox, in_subtree};
use crate::message::{Message, MessageView, State};

verus! {

/// A filter as a mathematical value. An absent field constrains nothing.
pub struct FilterView {
    pub ids: Option<Seq<u32>>,
    pub mailbox: Option<Seq<char>>,
    pub states: Option<Seq<State>>,
}

/// Whether a message passes a filter: every constraint that is present
/// holds. The mailbox constraint admits the mailbox itself and everything
/// below it.
pub open spec fn filter_matches(f: FilterView, m: MessageView) -> bool {
    &&& f.ids matches Some(ids) ==> ids.contains(m.id)
    &&& f.mailbox matches Some(root) ==> in_subtree(root, m.mailbox)
    &&& f.states matches Some(states) ==> states.contains(m.state)
}

/// A filter over messages. Built with `new` and the `with_` methods.
#[derive(Debug, PartialEq, Eq)]
#[must_use]
pub struct MessageFilter {
    ids: Option<Vec<u32>>,
    mailbox: Option<Mailbox>,
    states: Option<Vec<State>>,
}

impl View for MessageFilter {
    type V = FilterView;

    closed spec fn view(&self) -> FilterView {
        FilterView {
            ids: match self.ids {
                Some(v) => Some(v@),
                None => None,
            },
            mailbox: match self.mailbox {
                Some(m) => Some(m@),
                None => None,
            },
            states: match self.states {
                Some(v) => Some(v@),
                None => None,
            },
        }
    }
}

/// A copy of a vector of plain values.
pub fn copy_vec<T: Copy>(v: &Vec<T>) -> (r: Vec<T>)
    ensures
        r@ == v@,
{
    let mut r: Vec<T> = Vec::new();
    let mut i: usize = 0;
    while i < v.len()
        invariant
            i <= v.len(),
            r@ == v@.take(i as int),
        decreases v.len() - i,
    {
        r.push(v[i]);
        i += 1;
    }
    r
}

/// Whether `v` holds `x`.
pub fn holds_id(v: &Vec<u32>, x: u32) -> (r: bool)
    ensures
        r == v@.contains(x),
{
    let mut i: usize = 0;
    while i < v.len()
        invariant
            i <= v.len(),
            forall|k: int| 0 <= k < i ==> v@[k] != x,
        decreases v.len() - i,
    {
        if v[i] == x {
            return true;
        }
        i += 1;
    }
    false
}

/// Whether `v` holds `x`.
pub fn holds_state(v: &Vec<State>, x: State) -> (r: bool)
    ensures
        r == v@.contains(x),
{
    let mut i: usize = 0;
    while i < v.len()
        invariant
            i <= v.len(),
            forall|k: int| 0 <= k < i ==> v@[k] != x,
        decreases v.len() - i,
    {
        if v[i] == x {
            return true;
        }
        i += 1;
    }
    false
}

impl Clone for MessageFilter {
    fn clone(&self) -> (r: Self)
        ensures
            r@ == self@,
    {
        MessageFilter {
            ids: match &self.ids {
                Some(v) => Some(copy_vec(v)),
                None => None,
            },
            mailbox: match &self.mailbox {
                Some(m) => Some(m.clone()),
                None => None,
            },
            states: match &self.states {
                Some(v) => Some(copy_vec(v)),
                None => None,
            },
        }
    }
}

impl Default for MessageFilter {
    fn default() -> (r: Self)
        ensures
            r@ == (FilterView { ids: None, mailbox: None, states: None }),
    {
        MessageFilter { ids: None, mailbox: None, states: None }
    }
}

impl MessageFilter {
    /// The filter that constrains nothing.
    pub fn new() -> (r: Self)
        ensures
            r@ == (FilterView { ids: None, mailbox: None, states: None }),
    {
        MessageFilter { ids: None, mailbox: None, states: None }
    }

    /// This filter, restricted to `mailbox` and what lies below it.
    pub fn with_mailbox(self, mailbox: Mailbox) -> (r: Self)
        ensures
            r@ == (FilterView { mailbox: Some(mailbox@), ..self@ }),
    {
        MessageFilter { ids: self.ids, mailbox: Some(mailbox), states: self.states }
    }

    /// As `with_mailbox` where a mailbox is given; else this filter
    /// unchanged.
    pub fn with_mailbox_option(self, mailbox: Option<Mailbox>) -> (r: Self)
        ensures
            r@ == match mailbox {
                Some(m) => FilterView { mailbox: Some(m@), ..self@ },
                None => self@,
            },
    {
        match mailbox {
            Some(mailbox) => self.with_mailbox(mailbox),
            None => self,
        }
    }

    /// This filter, restricted to the given states.
    pub fn with_states(self, states: Vec<State>) -> (r: Self)
        ensures
            r@ == (FilterView { states: Some(states@), ..self@ }),
    {
        MessageFilter { ids: self.ids, mailbox: self.mailbox, states: Some(states) }
    }

    /// This filter, restricted to the given ids.
    pub fn with_ids(self, ids: Vec<u32>) -> (r: Self)
        ensures
            r@ == (FilterView { ids: Some(ids@), ..self@ }),
    {
        MessageFilter { ids: Some(ids), mailbox: self.mailbox, states: self.states }
    }

    /// The ids that this filter admits, where it constrains them.
    pub fn ids(&self) -> (r: Option<&Vec<u32>>)
        ensures
            match r {
                Some(v) => self@.ids == Some(v@),
                None => self@.ids is None,
            },
    {
        self.ids.as_ref()
    }

    /// The mailbox that this filter is restricted to, if any.
    pub fn mailbox(&self) -> (r: Option<&Mailbox>)
        ensures
            match r {
                Some(m) => self@.mailbox == Some(m@),
                None => self@.mailbox is None,
            },
    {
        self.mailbox.as_ref()
    }

    /// The states that this filter admits, where it constrains them.
    pub fn states(&self) -> (r: Option<&Vec<State>>)
        ensures
            match r {
                Some(v) => self@.states == Some(v@),
                None => self@.states is None,
            },
    {
        self.states.as_ref()
    }

    /// Whether this filter constrains nothing, and so admits every message.
    pub fn matches_all(&self) -> (r: bool)
        ensures
            r == (self@.ids is None && self@.mailbox is None && self@.states is None),
            r ==> forall|m: MessageView| filter_matches(self@, m),
    {
        self.ids.is_none() && self.mailbox.is_none() && self.states.is_none()
    }

    /// Whether `message` passes this filter.
    pub fn matches_message(&self, message: &Message) -> (r: bool)
        ensures
            r == filter_matches(self@, message@),
    {
        if let Some(ids) = &self.ids {
            if !holds_id(ids, message.id) {
                return false;
            }
        }
        if let Some(mailbox) = &self.mailbox {
            if !mailbox.is_ancestor_of(&message.mailbox) {
                return false;
            }
        }
        if let Some(states) = &self.states {
            if !holds_state(states, message.state) {
                return false;
            }
        }
        true
    }

    /// Whether this filter and `other` hold the same constraints, lists
    /// compared item by item.
    pub fn same(&self, other: &MessageFilter) -> (r: bool)
        ensures
            r == (self@ == other@),
    {
        let ids_same = match (&self.ids, &other.ids) {
            (Some(a), Some(b)) => same_ids(a, b),
            (None, None) => true,
            _ => false,
        };
        let mailbox_same = match (&self.mailbox, &other.mailbox) {
            (Some(a), Some(b)) => a.same(b),
            (None, None) => true,
            _ => false,
        };
        let states_same = match (&self.states, &other.states) {
            (Some(a), Some(b)) => same_states(a, b),
            (None, None) => true,
            _ => false,
        };
        ids_same && mailbox_same && states_same
    }
}

/// Whether two vectors hold the same ids in the same order.
pub fn same_ids(a: &Vec<u32>, b: &Vec<u32>) -> (r: bool)
    ensures
        r == (a@ == b@),
{
    if a.len() != b.len() {
        return false;
    }
    let mut i: usize = 0;
    while i < a.len()
        invariant
            a.len() == b.len(),
            i <= a.len(),
            forall|k: int| 0 <= k < i ==> a@[k] == b@[k],
        decreases a.len() - i,
    {
        if a[i] != b[i] {
            return false;
        }
        i += 1;
    }
    assert(a@ =~= b@);
    true
}

/// Whether two vectors hold the same states in the same order.
pub fn same_states(a: &Vec<State>, b: &Vec<State>) -> (r: bool)
    ensures
        r == (a@ == b@),
{
    if a.len() != b.len() {
        return false;
    }
    let mut i: usize = 0;
    while i < a.len()
        invariant
            a.len() == b.len(),
            i <= a.len(),
            forall|k: int| 0 <= k < i ==> a@[k] == b@[k],
        decreases a.len() - i,
    {
        if a[i] != b[i] {
            return false;
        }
        i += 1;
    }
    assert(a@ =~= b@);
    true
}

} // verus!
