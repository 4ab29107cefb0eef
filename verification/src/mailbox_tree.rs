//! The tree of mailboxes that the interactive program shows: one row for
//! every mailbox that holds messages and for every mailbox above one, with
//! the number of messages in it and below it.

use vstd::prelude::*;
use std::collections::hash_map::DefaultHasher;
use std::hash::Hasher;
use vstd::std_specs::hash::DefaultHasherAdditionalSpecFns;
use vstd::string::StringSliceAdditionalSpecFns;
use crate::mailbox::{
    Mailbox,
    ancestors,
    in_subtree,
    lemma_ancestor_valid,
    lemma_ancestors_complete,
    lemma_ancestors_order,
    lemma_ancestors_upto,
    lemma_in_subtree_prefix,
    slash_count,
    valid_mailbox,
};
use crate::message::MailboxInfo;
use crate::navigable_list::Keyed;
use crate::text::{lemma_lex_lt_irreflexive, lemma_lex_lt_total, lemma_lex_lt_transitive, lex_lt};
use crate::tree_list::Depth;

verus! {

/// A row of the tree of mailboxes.
#[derive(Debug, PartialEq, Eq)]
pub struct MailboxRow {
    /// The full path of the mailbox.
    pub mailbox: Mailbox,
    /// The depth of the mailbox: 0 for a root, 1 for its children.
    pub depth: usize,
    /// The number of messages in the mailbox and below it.
    pub message_count: usize,
}

impl Clone for MailboxRow {
    fn clone(&self) -> (r: Self)
        ensures
            r == *self,
    {
        MailboxRow {
            mailbox: self.mailbox.clone(),
            depth: self.depth,
            message_count: self.message_count,
        }
    }
}

impl Depth for MailboxRow {
    open spec fn depth(&self) -> usize {
        self.depth
    }

    fn get_depth(&self) -> (d: usize) {
        self.depth
    }
}

/// The key of the mailbox with the path `name`: what the default hasher of
/// the standard library makes of the bytes of the path.
pub open spec fn mailbox_key(name: Seq<char>) -> u64 {
    DefaultHasher::spec_finish(seq![vstd::utf8::encode_utf8(name)])
}

impl Keyed for MailboxRow {
    open spec fn key(&self) -> u64 {
        mailbox_key(self.mailbox@)
    }

    fn get_key(&self) -> (k: u64) {
        let mut hasher = DefaultHasher::new();
        hasher.write(self.mailbox.as_str().as_bytes());
        hasher.finish()
    }
}

/// The sum of the counts of the mailboxes of `infos` that are `root` or lie
/// below it.
pub open spec fn subtree_total(infos: Seq<MailboxInfo>, root: Seq<char>) -> nat
    decreases infos.len(),
{
    if infos.len() == 0 {
        0
    } else {
        subtree_total(infos.drop_last(), root) + if in_subtree(root, infos.last().name@) {
            infos.last().message_count as nat
        } else {
            0nat
        }
    }
}

/// A count as a row shows it: held at the largest number that fits.
pub open spec fn capped(n: nat) -> usize {
    if n > usize::MAX {
        usize::MAX
    } else {
        n as usize
    }
}

/// The rows stand in strictly ascending order of their paths.
pub open spec fn rows_sorted(rows: Seq<MailboxRow>) -> bool {
    forall|i: int, j: int|
        0 <= i < j < rows.len() ==> lex_lt((#[trigger] rows[i]).mailbox@, (#[trigger] rows[j]).mailbox@)
}

/// `rows` is the tree of the mailboxes of `infos`: in ascending order of
/// path, one row for every mailbox that is a mailbox of `infos` or lies
/// above one, and no other; every row with its depth and with the sum of the
/// counts of the mailboxes of `infos` at or below it.
pub open spec fn is_mailbox_tree(rows: Seq<MailboxRow>, infos: Seq<MailboxInfo>) -> bool {
    &&& rows_sorted(rows)
    &&& forall|i: int|
        0 <= i < rows.len() ==> {
            let row = #[trigger] rows[i];
            &&& row.depth == slash_count(row.mailbox@)
            &&& row.message_count == capped(subtree_total(infos, row.mailbox@))
            &&& exists|k: int| 0 <= k < infos.len() && in_subtree(row.mailbox@, (#[trigger] infos[k]).name@)
        }
    &&& forall|k: int, a: Seq<char>|
        0 <= k < infos.len() && #[trigger] in_subtree(a, infos[k].name@) ==> has_row(rows, a)
}

/// Some row of `rows` is the row of the mailbox `name`.
pub open spec fn has_row(rows: Seq<MailboxRow>, name: Seq<char>) -> bool {
    exists|i: int| 0 <= i < rows.len() && (#[trigger] rows[i]).mailbox@ == name
}

/// The length below which the ancestors of `m` have been entered when the
/// first `k` of them have been.
spec fn entered_bound(m: Seq<char>, k: int) -> int {
    if 0 <= k < ancestors(m).len() {
        ancestors(m)[k].len() as int
    } else {
        m.len() as int + 1
    }
}

/// What the mailbox `m` with count `c` has added to the row `name` when its
/// ancestors shorter than `bound` have been entered.
spec fn entered(name: Seq<char>, m: Seq<char>, c: usize, bound: int) -> nat {
    if in_subtree(name, m) && name.len() < bound {
        c as nat
    } else {
        0
    }
}

/// The tree while it is built: the first `n` mailboxes of `infos` are
/// entered, and of the mailbox `m` with count `c` the ancestors shorter than
/// `bound`.
spec fn tree_inv(
    rows: Seq<MailboxRow>,
    infos: Seq<MailboxInfo>,
    n: int,
    m: Seq<char>,
    c: usize,
    bound: int,
) -> bool {
    &&& rows_sorted(rows)
    &&& forall|i: int|
        0 <= i < rows.len() ==> {
            let row = #[trigger] rows[i];
            &&& row.depth == slash_count(row.mailbox@)
            &&& row.message_count == capped(
                subtree_total(infos.take(n), row.mailbox@) + entered(row.mailbox@, m, c, bound),
            )
            &&& ((exists|k: int| 0 <= k < n && in_subtree(row.mailbox@, (#[trigger] infos[k]).name@))
                || (in_subtree(row.mailbox@, m) && row.mailbox@.len() < bound))
        }
    &&& forall|k: int, a: Seq<char>|
        0 <= k < n && #[trigger] in_subtree(a, infos[k].name@) ==> has_row(rows, a)
    &&& forall|a: Seq<char>| in_subtree(a, m) && a.len() < bound ==> #[trigger] has_row(rows, a)
}

/// Where no mailbox of `infos` lies at or below `root`, the total is 0.
proof fn lemma_subtree_total_zero(infos: Seq<MailboxInfo>, root: Seq<char>)
    requires
        forall|k: int| 0 <= k < infos.len() ==> !in_subtree(root, (#[trigger] infos[k]).name@),
    ensures
        subtree_total(infos, root) == 0,
    decreases infos.len(),
{
    if infos.len() > 0 {
        let rest = infos.drop_last();
        lemma_subtree_total_zero(rest, root);
    }
}

/// The ancestors of a mailbox, one step of entering them: the ancestor at
/// position `k` is the only mailbox at or above `m` whose length lies
/// between the bound before and the bound after.
proof fn lemma_ancestor_step(m: Seq<char>, k: int)
    requires
        valid_mailbox(m),
        0 <= k < ancestors(m).len(),
    ensures
        in_subtree(ancestors(m)[k], m),
        valid_mailbox(ancestors(m)[k]),
        slash_count(ancestors(m)[k]) == k,
        entered_bound(m, k) == ancestors(m)[k].len(),
        entered_bound(m, k) < entered_bound(m, k + 1),
        forall|name: Seq<char>|
            in_subtree(name, m) ==> (name.len() < entered_bound(m, k + 1) <==> (name.len()
                < entered_bound(m, k) || name == ancestors(m)[k])),
{
    let all = ancestors(m);
    let n = m.len() as int;
    lemma_ancestors_upto(m, n);
    lemma_ancestors_order(m, n);
    let a = all[k];
    lemma_in_subtree_prefix(a, m);
    lemma_ancestor_valid(m, a.len() as int);
    assert forall|name: Seq<char>| in_subtree(name, m) implies (name.len() < entered_bound(
        m,
        k + 1,
    ) <==> (name.len() < entered_bound(m, k) || name == all[k])) by {
        lemma_in_subtree_prefix(name, m);
        lemma_ancestors_complete(m, n, name.len() as int);
    }
}

/// Before the first ancestor is entered, nothing of `m` is.
proof fn lemma_ancestor_first(m: Seq<char>)
    requires
        valid_mailbox(m),
    ensures
        ancestors(m).len() > 0,
        forall|name: Seq<char>| in_subtree(name, m) ==> name.len() >= entered_bound(m, 0),
{
    let n = m.len() as int;
    lemma_ancestors_order(m, n);
    assert forall|name: Seq<char>| in_subtree(name, m) implies name.len() >= entered_bound(m, 0) by {
        lemma_in_subtree_prefix(name, m);
        lemma_ancestors_complete(m, n, name.len() as int);
    }
}

/// The position of the first row whose path does not come before `name`.
fn find_row(rows: &Vec<MailboxRow>, name: &Mailbox) -> (p: usize)
    ensures
        p <= rows@.len(),
        forall|q: int| 0 <= q < p ==> lex_lt((#[trigger] rows@[q]).mailbox@, name@),
        p < rows@.len() ==> !lex_lt(rows@[p as int].mailbox@, name@),
{
    let mut p: usize = 0;
    while p < rows.len()
        invariant
            p <= rows@.len(),
            forall|q: int| 0 <= q < p ==> lex_lt((#[trigger] rows@[q]).mailbox@, name@),
        decreases rows.len() - p,
    {
        if !rows[p].mailbox.precedes(name) {
            return p;
        }
        p += 1;
    }
    p
}

/// Enters one ancestor of a mailbox into the tree: adds `count` to its row,
/// or makes it a row of its own.
fn enter_ancestor(
    rows: &mut Vec<MailboxRow>,
    name: Mailbox,
    depth: usize,
    count: usize,
    Ghost(infos): Ghost<Seq<MailboxInfo>>,
    Ghost(n): Ghost<int>,
    Ghost(m): Ghost<Seq<char>>,
    Ghost(k): Ghost<int>,
)
    requires
        0 <= n <= infos.len(),
        valid_mailbox(m),
        0 <= k < ancestors(m).len(),
        name@ == ancestors(m)[k],
        depth == k,
        tree_inv(old(rows)@, infos, n, m, count, entered_bound(m, k)),
    ensures
        tree_inv(final(rows)@, infos, n, m, count, entered_bound(m, k + 1)),
{
    let ghost before = rows@;
    proof {
        lemma_ancestor_step(m, k);
    }
    let p = find_row(rows, &name);
    let found = p < rows.len() && rows[p].mailbox.same(&name);
    if found {
        let old_count = rows[p].message_count;
        let new_count = if old_count > usize::MAX - count {
            usize::MAX
        } else {
            old_count + count
        };
        let row = MailboxRow { mailbox: name, depth: rows[p].depth, message_count: new_count };
        rows.set(p, row);
        proof {
            let after = rows@;
            assert forall|a: Seq<char>| has_row(before, a) implies has_row(after, a) by {
                let i = choose|i: int| 0 <= i < before.len() && (#[trigger] before[i]).mailbox@ == a;
                assert(after[i].mailbox@ == a);
            }
        }
    } else {
        proof {
            // No row has this path, so nothing was entered under it.
            assert forall|i: int| 0 <= i < before.len() implies (#[trigger] before[i]).mailbox@
                != name@ by {
                lemma_lex_lt_irreflexive(name@);
            }
            lemma_subtree_total_zero(infos.take(n), name@);
        }
        let row = MailboxRow { mailbox: name, depth, message_count: count };
        rows.insert(p, row);
        proof {
            let after = rows@;
            assert forall|i: int, j: int| 0 <= i < j < after.len() implies lex_lt(
                (#[trigger] after[i]).mailbox@,
                (#[trigger] after[j]).mailbox@,
            ) by {
                let x = name@;
                if p < before.len() {
                    lemma_lex_lt_total(before[p as int].mailbox@, x);
                }
                if j < p {
                } else if j == p {
                } else if i < p {
                } else if i == p {
                    if j - 1 > p {
                        lemma_lex_lt_transitive(x, before[p as int].mailbox@, before[j - 1].mailbox@);
                    }
                }
            }
            assert forall|a: Seq<char>| has_row(before, a) implies has_row(after, a) by {
                let i = choose|i: int| 0 <= i < before.len() && (#[trigger] before[i]).mailbox@ == a;
                if i < p {
                    assert(after[i].mailbox@ == a);
                } else {
                    assert(after[i + 1].mailbox@ == a);
                }
            }
            assert(has_row(after, name@)) by {
                assert(after[p as int].mailbox@ == name@);
            }
        }
    }
}

/// The tree of mailboxes of a list of mailboxes with their counts: every
/// mailbox adds its count to its own row and to the row of every mailbox
/// above it, and the rows stand in ascending order of path.
pub fn build_mailbox_list(mailbox_sizes: Vec<MailboxInfo>) -> (rows: Vec<MailboxRow>)
    ensures
        is_mailbox_tree(rows@, mailbox_sizes@),
{
    let ghost infos = mailbox_sizes@;
    let mut rows: Vec<MailboxRow> = Vec::new();
    let mut n: usize = 0;
    let ghost empty = Seq::<char>::empty();
    while n < mailbox_sizes.len()
        invariant
            n <= mailbox_sizes.len(),
            infos == mailbox_sizes@,
            tree_inv(rows@, infos, n as int, empty, 0, 0),
        decreases mailbox_sizes.len() - n,
    {
        let info = &mailbox_sizes[n];
        let count = info.message_count;
        let parents = info.name.iter_ancestors();
        let ghost m = info.name@;
        let _ = info.name.as_str();
        proof {
            lemma_ancestor_first(m);
        }
        let mut k: usize = 0;
        while k < parents.len()
            invariant
                k <= parents.len(),
                n < mailbox_sizes.len(),
                infos == mailbox_sizes@,
                m == infos[n as int].name@,
                valid_mailbox(m),
                parents@.len() == ancestors(m).len(),
                forall|i: int| 0 <= i < parents@.len() ==> (#[trigger] parents@[i])@ == ancestors(m)[i],
                tree_inv(rows@, infos, n as int, m, count, entered_bound(m, k as int)),
            decreases parents.len() - k,
        {
            let name = parents[k].clone();
            enter_ancestor(&mut rows, name, k, count, Ghost(infos), Ghost(n as int), Ghost(m), Ghost(k as int));
            k += 1;
        }
        proof {
            assert(infos.take(n + 1).drop_last() =~= infos.take(n as int));
        }
        n += 1;
    }
    proof {
        assert(infos.take(n as int) =~= infos);
    }
    rows
}

} // verus!
