//! Hierarchical mailbox paths such as `backups/nightly/errors`.

use vstd::prelude::*;
use vstd::std_specs::convert::TryFromSpecImpl;
use crate::separated::{item_start, lemma_item_start};
use crate::text::{chars_lt, chars_of, is_prefix, lex_lt, string_of_range};

verus! {

/// Why a string is not a mailbox path.
#[derive(Clone, Copy, Debug, PartialEq, Eq, Structural)]
pub enum MailboxError {
    /// The string is empty.
    Empty,
    /// The string starts with `/`.
    LeadingSlash,
    /// The string ends with `/`.
    TrailingSlash,
    /// The string holds `//`, that is an empty segment.
    DoubleSlash,
    /// The string holds `%`, which is kept for pattern escaping.
    Percent,
}

/// Whether `s` holds two slashes in a row.
pub open spec fn has_double_slash(s: Seq<char>) -> bool {
    exists|i: int| 0 <= i < s.len() - 1 && s[i] == '/' && #[trigger] s[i + 1] == '/'
}

/// The first rule that `s` breaks, in the order in which the rules are
/// checked, or `None` where `s` is a mailbox path.
pub open spec fn mailbox_error(s: Seq<char>) -> Option<MailboxError> {
    if s.len() == 0 {
        Some(MailboxError::Empty)
    } else if s[0] == '/' {
        Some(MailboxError::LeadingSlash)
    } else if s[s.len() - 1] == '/' {
        Some(MailboxError::TrailingSlash)
    } else if has_double_slash(s) {
        Some(MailboxError::DoubleSlash)
    } else if s.contains('%') {
        Some(MailboxError::Percent)
    } else {
        None
    }
}

/// A mailbox path: non-empty segments separated by `/`, without `%`.
pub open spec fn valid_mailbox(s: Seq<char>) -> bool {
    mailbox_error(s) is None
}

/// Position `n` of `s` ends a segment: a slash stands there, or `s` ends.
pub open spec fn segment_end(s: Seq<char>, n: int) -> bool {
    0 < n <= s.len() && (n == s.len() || s[n] == '/')
}

/// The prefixes of `s` that end at a segment end at or before position `n`,
/// shortest first.
pub open spec fn ancestors_upto(s: Seq<char>, n: int) -> Seq<Seq<char>>
    decreases n,
{
    if n <= 0 {
        Seq::empty()
    } else if segment_end(s, n) {
        ancestors_upto(s, n - 1).push(s.take(n))
    } else {
        ancestors_upto(s, n - 1)
    }
}

/// The ancestors of the path `s`, itself included, root first: for `a/b/c`
/// they are `a`, `a/b` and `a/b/c`.
pub open spec fn ancestors(s: Seq<char>) -> Seq<Seq<char>> {
    ancestors_upto(s, s.len() as int)
}

/// Where the last segment of `s` starts: behind the last slash, or at 0.
pub open spec fn leaf_start(s: Seq<char>) -> int {
    item_start(s, '/')
}

/// The last segment of the path `s`.
pub open spec fn leaf_name(s: Seq<char>) -> Seq<char> {
    s.skip(leaf_start(s))
}

/// Mailbox `m` is `root` itself or lies below it.
pub open spec fn in_subtree(root: Seq<char>, m: Seq<char>) -> bool {
    m == root || is_prefix(root.push('/'), m)
}

/// The last segment holds no slash, and a slash stands before it unless it
/// starts the path.
pub proof fn lemma_leaf_start(s: Seq<char>)
    ensures
        0 <= leaf_start(s) <= s.len(),
        leaf_start(s) > 0 ==> s[leaf_start(s) - 1] == '/',
        forall|i: int| leaf_start(s) <= i < s.len() ==> s[i] != '/',
{
    lemma_item_start(s, '/');
}

/// A prefix of a mailbox path that ends at a segment end is a mailbox path.
pub proof fn lemma_ancestor_valid(s: Seq<char>, n: int)
    requires
        valid_mailbox(s),
        segment_end(s, n),
    ensures
        valid_mailbox(s.take(n)),
{
    let p = s.take(n);
    if n < s.len() {
        if p[n - 1] == '/' {
            assert(s[n - 1] == '/' && s[(n - 1) + 1] == '/');
        }
    }
}

/// Every ancestor is a prefix that ends at a segment end.
pub proof fn lemma_ancestors_upto(s: Seq<char>, n: int)
    requires
        0 <= n <= s.len(),
    ensures
        ancestors_upto(s, n).len() <= n,
        forall|k: int|
            0 <= k < ancestors_upto(s, n).len() ==> {
                let a = #[trigger] ancestors_upto(s, n)[k];
                &&& segment_end(s, a.len() as int)
                &&& a.len() <= n
                &&& a == s.take(a.len() as int)
            },
    decreases n,
{
    if n > 0 {
        lemma_ancestors_upto(s, n - 1);
    }
}

/// The number of slashes in `s`: the depth of the mailbox `s` in the tree of
/// mailboxes, where a root has depth 0.
pub open spec fn slash_count(s: Seq<char>) -> nat
    decreases s.len(),
{
    if s.len() == 0 {
        0
    } else {
        slash_count(s.drop_last()) + if s.last() == '/' {
            1nat
        } else {
            0nat
        }
    }
}

/// The mailboxes at or above a mailbox are its prefixes that end at a
/// segment end.
pub proof fn lemma_in_subtree_prefix(root: Seq<char>, m: Seq<char>)
    requires
        valid_mailbox(m),
    ensures
        in_subtree(root, m) <==> (segment_end(m, root.len() as int) && root == m.take(
            root.len() as int,
        )),
{
    let k = root.len() as int;
    if in_subtree(root, m) {
        if m == root {
            assert(m.take(k) =~= m);
        } else {
            let p = root.push('/');
            assert(m.take(k + 1)[k] == p[k]);
            assert(root =~= m.take(k)) by {
            }
        }
    }
    if segment_end(m, k) && root == m.take(k) {
        if k == m.len() {
            assert(m.take(k) =~= m);
        } else {
            assert(m.take(k + 1) =~= root.push('/'));
        }
    }
}

/// Every prefix that ends at a segment end at or before `n` is among the
/// ancestors up to `n`.
pub proof fn lemma_ancestors_complete(s: Seq<char>, n: int, e: int)
    requires
        0 <= n <= s.len(),
        segment_end(s, e),
        e <= n,
    ensures
        exists|j: int| 0 <= j < ancestors_upto(s, n).len() && #[trigger] ancestors_upto(s, n)[j] == s.take(e),
    decreases n,
{
    if e == n {
        let a = ancestors_upto(s, n);
        assert(a[a.len() - 1] == s.take(e));
    } else {
        lemma_ancestors_complete(s, n - 1, e);
        let j = choose|j: int|
            0 <= j < ancestors_upto(s, n - 1).len() && #[trigger] ancestors_upto(s, n - 1)[j] == s.take(e);
        assert(ancestors_upto(s, n)[j] == s.take(e));
    }
}

/// The ancestors grow in length, and the one at position `j` has `j`
/// slashes.
pub proof fn lemma_ancestors_order(s: Seq<char>, n: int)
    requires
        0 <= n <= s.len(),
        s.len() > 0,
        s[0] != '/',
    ensures
        forall|i: int, j: int|
            0 <= i < j < ancestors_upto(s, n).len() ==> (#[trigger] ancestors_upto(s, n)[i]).len() < (
            #[trigger] ancestors_upto(s, n)[j]).len(),
        forall|j: int|
            0 <= j < ancestors_upto(s, n).len() ==> slash_count(#[trigger] ancestors_upto(s, n)[j])
                == j,
        n < s.len() ==> ancestors_upto(s, n).len() == slash_count(s.take(n + 1)),
    decreases n,
{
    if n > 0 {
        lemma_ancestors_order(s, n - 1);
        lemma_ancestors_upto(s, n - 1);
        if n < s.len() {
            assert(s.take(n + 1).drop_last() =~= s.take(n));
        }
    } else {
        assert(slash_count(s.take(1).drop_last()) == 0);
    }
}

/// A validated mailbox path.
#[derive(Debug, PartialEq, Eq, PartialOrd, Ord, Hash)]
pub struct Mailbox {
    name: String,
}

impl View for Mailbox {
    type V = Seq<char>;

    closed spec fn view(&self) -> Seq<char> {
        self.name@
    }
}

impl Clone for Mailbox {
    fn clone(&self) -> (r: Self)
        ensures
            r == *self,
    {
        proof {
            use_type_invariant(self);
        }
        Mailbox { name: self.name.clone() }
    }
}

impl Mailbox {
    #[verifier::type_invariant]
    spec fn well_formed(self) -> bool {
        valid_mailbox(self.name@)
    }

    /// Checks `value` against the rules of a mailbox path, in the order
    /// empty, leading slash, trailing slash, double slash, percent sign.
    pub fn new(value: String) -> (r: Result<Mailbox, MailboxError>)
        ensures
            match r {
                Ok(m) => valid_mailbox(value@) && m@ == value@,
                Err(e) => mailbox_error(value@) == Some(e),
            },
    {
        let chars = chars_of(value.as_str());
        let n = chars.len();
        if n == 0 {
            return Err(MailboxError::Empty);
        }
        if chars[0] == '/' {
            return Err(MailboxError::LeadingSlash);
        }
        if chars[n - 1] == '/' {
            return Err(MailboxError::TrailingSlash);
        }
        let mut i: usize = 0;
        while i < n - 1
            invariant
                chars@ == value@,
                n == chars.len(),
                n > 0,
                chars@[0] != '/',
                chars@[n - 1] != '/',
                i <= n - 1,
                forall|k: int| 0 <= k < i ==> !(chars@[k] == '/' && #[trigger] chars@[k + 1] == '/'),
            decreases n - i,
        {
            if chars[i] == '/' && chars[i + 1] == '/' {
                return Err(MailboxError::DoubleSlash);
            }
            i += 1;
        }
        let mut j: usize = 0;
        while j < n
            invariant
                chars@ == value@,
                n == chars.len(),
                n > 0,
                chars@[0] != '/',
                chars@[n - 1] != '/',
                !has_double_slash(chars@),
                j <= n,
                forall|k: int| 0 <= k < j ==> chars@[k] != '%',
            decreases n - j,
        {
            if chars[j] == '%' {
                return Err(MailboxError::Percent);
            }
            j += 1;
        }
        Ok(Mailbox { name: value })
    }

    /// As `new`, from a borrowed string.
    pub fn parse(value: &str) -> (r: Result<Mailbox, MailboxError>)
        ensures
            match r {
                Ok(m) => valid_mailbox(value@) && m@ == value@,
                Err(e) => mailbox_error(value@) == Some(e),
            },
    {
        Mailbox::new(value.to_owned())
    }

    /// The path as text.
    pub fn as_str(&self) -> (s: &str)
        ensures
            s@ == self@,
            valid_mailbox(self@),
    {
        proof {
            use_type_invariant(self);
        }
        self.name.as_str()
    }

    /// The ancestors of this mailbox, itself included, root first.
    pub fn iter_ancestors(&self) -> (r: Vec<Mailbox>)
        ensures
            r@.len() == ancestors(self@).len(),
            forall|i: int| 0 <= i < r@.len() ==> (#[trigger] r@[i])@ == ancestors(self@)[i],
            r@.len() >= 1,
            r@[r@.len() - 1]@ == self@,
    {
        proof {
            use_type_invariant(self);
        }
        let chars = chars_of(self.name.as_str());
        let n = chars.len();
        let mut r: Vec<Mailbox> = Vec::new();
        let mut i: usize = 0;
        while i < n
            invariant
                chars@ == self@,
                n == chars.len(),
                valid_mailbox(self@),
                i <= n,
                r@.len() == ancestors_upto(self@, i as int).len(),
                forall|k: int|
                    0 <= k < r@.len() ==> (#[trigger] r@[k])@ == ancestors_upto(self@, i as int)[k],
            decreases n - i,
        {
            let end = i + 1;
            if end == n || chars[end] == '/' {
                let name = string_of_range(&chars, 0, end);
                r.push(Mailbox { name });
            }
            i = end;
        }
        r
    }

    /// The last segment of the path: what follows the last `/`, or the whole
    /// path where it holds none.
    pub fn get_leaf_name(&self) -> (s: &str)
        ensures
            s@ == leaf_name(self@),
            !s@.contains('/'),
            s@ == self@ || self@ == self@.take(self@.len() - s@.len() - 1).push('/') + s@,
    {
        proof {
            lemma_leaf_start(self@);
        }
        let chars = chars_of(self.name.as_str());
        let n = chars.len();
        let mut k: usize = n;
        proof {
            assert(chars@.take(n as int) =~= chars@);
        }
        while k > 0 && chars[k - 1] != '/'
            invariant
                chars@ == self@,
                n == chars.len(),
                k <= n,
                leaf_start(self@) == leaf_start(self@.take(k as int)),
            decreases k,
        {
            proof {
                assert(self@.take(k as int).drop_last() =~= self@.take(k - 1));
            }
            k -= 1;
        }
        self.name.as_str().substring_char(k, n)
    }

    /// Whether `other` is this mailbox or lies below it.
    pub fn is_ancestor_of(&self, other: &Mailbox) -> (r: bool)
        ensures
            r == in_subtree(self@, other@),
    {
        let a = chars_of(self.name.as_str());
        let b = chars_of(other.name.as_str());
        chars_in_subtree(&a, &b)
    }

    /// Whether this mailbox and `other` are the same path.
    pub fn same(&self, other: &Mailbox) -> (r: bool)
        ensures
            r == (self@ == other@),
    {
        self.name == other.name
    }

    /// Whether this path comes strictly before `other`, code point by code
    /// point.
    pub fn precedes(&self, other: &Mailbox) -> (r: bool)
        ensures
            r == lex_lt(self@, other@),
    {
        let a = chars_of(self.name.as_str());
        let b = chars_of(other.name.as_str());
        chars_lt(&a, &b)
    }
}

/// Whether the path `m` is `root` or lies below it.
pub fn chars_in_subtree(root: &Vec<char>, m: &Vec<char>) -> (r: bool)
    ensures
        r == in_subtree(root@, m@),
{
    let rn = root.len();
    if m.len() < rn {
        return false;
    }
    let mut i: usize = 0;
    while i < rn
        invariant
            rn == root.len(),
            rn <= m.len(),
            i <= rn,
            forall|k: int| 0 <= k < i ==> root@[k] == m@[k],
        decreases rn - i,
    {
        if root[i] != m[i] {
            proof {
                if m.len() > rn {
                    assert(m@.take(rn + 1)[i as int] != root@.push('/')[i as int]);
                }
            }
            return false;
        }
        i += 1;
    }
    if m.len() == rn {
        assert(m@ =~= root@);
        return true;
    }
    if m[rn] == '/' {
        assert(m@.take(rn + 1) =~= root@.push('/'));
        true
    } else {
        assert(m@.take(rn + 1)[rn as int] != root@.push('/')[rn as int]);
        false
    }
}

impl TryFrom<String> for Mailbox {
    type Error = MailboxError;

    fn try_from(value: String) -> (r: Result<Mailbox, MailboxError>)
        ensures
            match r {
                Ok(m) => valid_mailbox(value@) && m@ == value@,
                Err(e) => mailbox_error(value@) == Some(e),
            },
    {
        Mailbox::new(value)
    }
}

/// The conversion says what it returns in its own contract.
impl TryFromSpecImpl<String> for Mailbox {
    open spec fn obeys_try_from_spec() -> bool {
        false
    }

    open spec fn try_from_spec(v: String) -> Result<Self, MailboxError> {
        arbitrary()
    }
}

impl<'a> TryFrom<&'a str> for Mailbox {
    type Error = MailboxError;

    fn try_from(value: &'a str) -> (r: Result<Mailbox, MailboxError>)
        ensures
            match r {
                Ok(m) => valid_mailbox(value@) && m@ == value@,
                Err(e) => mailbox_error(value@) == Some(e),
            },
    {
        Mailbox::parse(value)
    }
}

/// The conversion says what it returns in its own contract.
impl<'a> TryFromSpecImpl<&'a str> for Mailbox {
    open spec fn obeys_try_from_spec() -> bool {
        false
    }

    open spec fn try_from_spec(v: &'a str) -> Result<Self, MailboxError> {
        arbitrary()
    }
}

impl std::str::FromStr for Mailbox {
    type Err = MailboxError;

    fn from_str(s: &str) -> (r: Result<Mailbox, MailboxError>)
        ensures
            match r {
                Ok(m) => valid_mailbox(s@) && m@ == s@,
                Err(e) => mailbox_error(s@) == Some(e),
            },
    {
        Mailbox::parse(s)
    }
}

impl MailboxError {
    /// The rule that was broken, in words.
    pub fn message(&self) -> (text: &'static str)
        ensures
            text@ == match *self {
                MailboxError::Empty => "mailbox must not be empty"@,
                MailboxError::LeadingSlash => "mailbox must not start with /"@,
                MailboxError::TrailingSlash => "mailbox must not end with /"@,
                MailboxError::DoubleSlash => "mailbox must not contain //"@,
                MailboxError::Percent => "mailbox must not contain %"@,
            },
    {
        match self {
            MailboxError::Empty => "mailbox must not be empty",
            MailboxError::LeadingSlash => "mailbox must not start with /",
            MailboxError::TrailingSlash => "mailbox must not end with /",
            MailboxError::DoubleSlash => "mailbox must not contain //",
            MailboxError::Percent => "mailbox must not contain %",
        }
    }
}

} // verus!
