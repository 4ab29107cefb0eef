//! Small helpers on strings, seen as sequences of characters.

use vstd::prelude::*;

verus! {

/// Appends one character to the end of a string.
///
/// Trusted: `String::push` of the standard library. The claim is that the
/// string afterwards holds the characters it held before, followed by `c`.
#[verifier::external_body]
pub(crate) fn push_char(s: &mut String, c: char)
    ensures
        final(s)@ == old(s)@.push(c),
{
    s.push(c);
}

/// The characters of a string, in order.
pub fn chars_of(s: &str) -> (v: Vec<char>)
    ensures
        v@ == s@,
{
    let mut v: Vec<char> = Vec::new();
    for c in it: s.chars()
        invariant
            it.seq() == s@,
            v@ =~= it.seq().take(it.index() as int),
    {
        v.push(c);
    }
    v
}

/// The string made of the characters `v[from..to]`.
pub fn string_of_range(v: &Vec<char>, from: usize, to: usize) -> (s: String)
    requires
        from <= to <= v.len(),
    ensures
        s@ == v@.subrange(from as int, to as int),
{
    let mut s = String::new();
    let mut i: usize = from;
    while i < to
        invariant
            from <= i <= to <= v.len(),
            s@ == v@.subrange(from as int, i as int),
        decreases to - i,
    {
        push_char(&mut s, v[i]);
        i += 1;
    }
    s
}

/// Whether two strings hold the same characters.
pub fn same_text(a: &str, b: &str) -> (r: bool)
    ensures
        r == (a@ == b@),
{
    let x = chars_of(a);
    let y = chars_of(b);
    same_chars(&x, &y)
}

/// Whether two vectors hold the same characters.
pub fn same_chars(a: &Vec<char>, b: &Vec<char>) -> (r: bool)
    ensures
        r == (a@ == b@),
{
    if a.len() != b.len() {
        return false;
    }
    let mut i: usize = 0;
    while i < a.len()
        invariant
            a.len() == b.len(),
            i <= a.len(),
            forall|k: int| 0 <= k < i ==> a@[k] == b@[k],
        decreases a.len() - i,
    {
        if a[i] != b[i] {
            return false;
        }
        i += 1;
    }
    assert(a@ =~= b@);
    true
}

/// `p` is a prefix of `s`.
pub open spec fn is_prefix(p: Seq<char>, s: Seq<char>) -> bool {
    p.len() <= s.len() && s.take(p.len() as int) == p
}

/// Strict lexicographic order on character sequences, by code point.
pub open spec fn lex_lt(a: Seq<char>, b: Seq<char>) -> bool
    decreases a.len(),
{
    if b.len() == 0 {
        false
    } else if a.len() == 0 {
        true
    } else if a[0] != b[0] {
        (a[0] as int) < (b[0] as int)
    } else {
        lex_lt(a.drop_first(), b.drop_first())
    }
}

/// `lex_lt` from position `i` on, where the two sequences agree before `i`.
proof fn lemma_lex_lt_skip(a: Seq<char>, b: Seq<char>, i: int)
    requires
        0 <= i <= a.len(),
        i <= b.len(),
        a.take(i) == b.take(i),
    ensures
        lex_lt(a, b) == lex_lt(a.skip(i), b.skip(i)),
    decreases i,
{
    if i == 0 {
        assert(a.skip(0) =~= a);
        assert(b.skip(0) =~= b);
    } else {
        assert(b.take(i)[0] == b[0]);
        assert(a.drop_first().take(i - 1) =~= a.take(i).drop_first());
        assert(b.drop_first().take(i - 1) =~= b.take(i).drop_first());
        lemma_lex_lt_skip(a.drop_first(), b.drop_first(), i - 1);
        assert(a.drop_first().skip(i - 1) =~= a.skip(i));
        assert(b.drop_first().skip(i - 1) =~= b.skip(i));
    }
}

/// Whether `a` comes strictly before `b` in lexicographic order.
pub fn chars_lt(a: &Vec<char>, b: &Vec<char>) -> (r: bool)
    ensures
        r == lex_lt(a@, b@),
{
    let mut i: usize = 0;
    while i < a.len() && i < b.len()
        invariant
            i <= a.len(),
            i <= b.len(),
            a@.take(i as int) == b@.take(i as int),
        decreases a.len() - i,
    {
        let x = a[i];
        let y = b[i];
        if x != y {
            proof {
                lemma_lex_lt_skip(a@, b@, i as int);
            }
            return x < y;
        }
        i += 1;
    }
    proof {
        lemma_lex_lt_skip(a@, b@, i as int);
    }
    i < b.len()
}

/// No sequence comes before itself.
pub proof fn lemma_lex_lt_irreflexive(a: Seq<char>)
    ensures
        !lex_lt(a, a),
    decreases a.len(),
{
    if a.len() > 0 {
        lemma_lex_lt_irreflexive(a.drop_first());
    }
}

/// Of two different sequences one comes before the other, and never both.
pub proof fn lemma_lex_lt_total(a: Seq<char>, b: Seq<char>)
    ensures
        a == b || lex_lt(a, b) || lex_lt(b, a),
        !(lex_lt(a, b) && lex_lt(b, a)),
    decreases a.len(),
{
    if a.len() == 0 || b.len() == 0 {
    } else if a[0] == b[0] {
        lemma_lex_lt_total(a.drop_first(), b.drop_first());
        if a.drop_first() == b.drop_first() {
            assert(b =~= seq![b[0]] + b.drop_first());
        }
    }
}

/// The order is transitive.
pub proof fn lemma_lex_lt_transitive(a: Seq<char>, b: Seq<char>, c: Seq<char>)
    requires
        lex_lt(a, b),
        lex_lt(b, c),
    ensures
        lex_lt(a, c),
    decreases a.len(),
{
    if a.len() > 0 {
        if a[0] == b[0] && b[0] == c[0] {
            lemma_lex_lt_transitive(a.drop_first(), b.drop_first(), c.drop_first());
        }
    }
}

} // verus!
