//! Lists written as text, their items separated by one character: a comma
//! between the items of a list, a tab between the fields of a line, a line
//! break between the lines of a text.

use vstd::prelude::*;
use crate::text::push_char;

verus! {

/// The items with the separator between them. No items give the empty
/// text.
pub open spec fn join_by(items: Seq<Seq<char>>, sep: char) -> Seq<char>
    decreases items.len(),
{
    if items.len() == 0 {
        Seq::empty()
    } else if items.len() == 1 {
        items[0]
    } else {
        join_by(items.drop_last(), sep).push(sep) + items.last()
    }
}

/// Where the last item of `s` starts: behind the last separator, or at 0.
pub open spec fn item_start(s: Seq<char>, sep: char) -> int
    decreases s.len(),
{
    if s.len() == 0 {
        0
    } else if s.last() == sep {
        s.len() as int
    } else {
        item_start(s.drop_last(), sep)
    }
}

/// The last item holds no separator, and a separator stands before it
/// unless it starts the text.
pub proof fn lemma_item_start(s: Seq<char>, sep: char)
    ensures
        0 <= item_start(s, sep) <= s.len(),
        item_start(s, sep) > 0 ==> s[item_start(s, sep) - 1] == sep,
        forall|i: int| item_start(s, sep) <= i < s.len() ==> s[i] != sep,
    decreases s.len(),
{
    if s.len() > 0 && s.last() != sep {
        let t = s.drop_last();
        lemma_item_start(t, sep);
        assert forall|i: int| item_start(s, sep) <= i < s.len() implies s[i] != sep by {
            if i < t.len() {
                assert(t[i] == s[i]);
            }
        }
    }
}

/// The text cut at every separator: one item more than there are
/// separators.
pub open spec fn split_by(s: Seq<char>, sep: char) -> Seq<Seq<char>>
    decreases s.len(),
{
    let k = item_start(s, sep);
    if 0 < k <= s.len() {
        split_by(s.take(k - 1), sep).push(s.skip(k))
    } else {
        seq![s]
    }
}

/// Cutting a text that ends in a separator: the items before it, then an
/// empty one.
pub proof fn lemma_split_push_separator(s: Seq<char>, sep: char)
    ensures
        split_by(s.push(sep), sep) == split_by(s, sep).push(Seq::<char>::empty()),
{
    let t = s.push(sep);
    assert(t.take(t.len() - 1) =~= s);
    assert(t.skip(t.len() as int) =~= Seq::<char>::empty());
}

/// Cutting a text that ends in another character: that character goes to
/// the last item.
pub proof fn lemma_split_push_other_by(s: Seq<char>, c: char, sep: char)
    requires
        c != sep,
    ensures
        split_by(s.push(c), sep).len() == split_by(s, sep).len(),
        split_by(s.push(c), sep).len() > 0,
        split_by(s.push(c), sep) == split_by(s, sep).drop_last().push(split_by(s, sep).last().push(c)),
{
    let t = s.push(c);
    lemma_item_start(s, sep);
    assert(t.drop_last() =~= s);
    let k = item_start(s, sep);
    if k == 0 {
    } else {
        assert(t.take(k - 1) =~= s.take(k - 1));
        assert(t.skip(k) =~= s.skip(k).push(c));
    }
}

/// A text without a separator is one item.
proof fn lemma_no_separator_start(s: Seq<char>, sep: char)
    requires
        !s.contains(sep),
    ensures
        item_start(s, sep) == 0,
    decreases s.len(),
{
    if s.len() > 0 {
        let t = s.drop_last();
        lemma_no_separator_start(t, sep);
    }
}

/// Behind a separator, a text without one is the last item.
proof fn lemma_start_after_separator(a: Seq<char>, b: Seq<char>, sep: char)
    requires
        !b.contains(sep),
    ensures
        item_start(a.push(sep) + b, sep) == a.len() + 1,
    decreases b.len(),
{
    let s = a.push(sep) + b;
    if b.len() == 0 {
    } else {
        let t = b.drop_last();
        assert(s.drop_last() =~= a.push(sep) + t);
        lemma_start_after_separator(a, t, sep);
    }
}

/// Cutting what was joined gives the items back, where there is at least
/// one item and no item holds the separator.
pub proof fn lemma_split_join_by(items: Seq<Seq<char>>, sep: char)
    requires
        items.len() > 0,
        forall|i: int| 0 <= i < items.len() ==> !(#[trigger] items[i]).contains(sep),
    ensures
        split_by(join_by(items, sep), sep) == items,
    decreases items.len(),
{
    if items.len() == 1 {
        lemma_item_start(items[0], sep);
    } else {
        let head = items.drop_last();
        let a = join_by(head, sep);
        let b = items.last();
        lemma_split_join_by(head, sep);
        lemma_start_after_separator(a, b, sep);
        let s = a.push(sep) + b;
        assert(s.take(a.len() as int) =~= a);
        assert(s.skip(a.len() as int + 1) =~= b);
    }
}

/// The bounds of the items of `v`, in order: item `j` is `v[r[j].0..r[j].1]`.
pub fn split_ranges_by(v: &Vec<char>, sep: char) -> (r: Vec<(usize, usize)>)
    ensures
        r@.len() == split_by(v@, sep).len(),
        forall|j: int|
            0 <= j < r@.len() ==> {
                let (a, b) = #[trigger] r@[j];
                a <= b <= v@.len() && split_by(v@, sep)[j] == v@.subrange(a as int, b as int)
            },
{
    let n = v.len();
    let mut r: Vec<(usize, usize)> = Vec::new();
    let mut start: usize = 0;
    let mut i: usize = 0;
    while i < n
        invariant
            n == v.len(),
            start <= i <= n,
            split_by(v@.take(i as int), sep).len() == r@.len() + 1,
            split_by(v@.take(i as int), sep).last() == v@.subrange(start as int, i as int),
            forall|j: int|
                0 <= j < r@.len() ==> {
                    let (a, b) = #[trigger] r@[j];
                    a <= b <= v@.len() && split_by(v@.take(i as int), sep)[j] == v@.subrange(
                        a as int,
                        b as int,
                    )
                },
        decreases n - i,
    {
        let c = v[i];
        proof {
            assert(v@.take(i + 1) =~= v@.take(i as int).push(c));
        }
        if c == sep {
            proof {
                lemma_split_push_separator(v@.take(i as int), sep);
            }
            r.push((start, i));
            start = i + 1;
        } else {
            proof {
                lemma_split_push_other_by(v@.take(i as int), c, sep);
            }
        }
        i += 1;
    }
    r.push((start, n));
    proof {
        assert(v@.take(n as int) =~= v@);
    }
    r
}

/// The items with the separator between them.
pub fn join_with(items: &Vec<String>, sep: char) -> (s: String)
    ensures
        s@ == join_by(items@.map_values(|t: String| t@), sep),
{
    let ghost views = items@.map_values(|t: String| t@);
    let mut s = String::new();
    let mut i: usize = 0;
    while i < items.len()
        invariant
            i <= items.len(),
            views == items@.map_values(|t: String| t@),
            s@ == join_by(views.take(i as int), sep),
        decreases items.len() - i,
    {
        if i > 0 {
            push_char(&mut s, sep);
        }
        s.append(items[i].as_str());
        proof {
            let t = views.take(i + 1);
            assert(t.drop_last() =~= views.take(i as int));
        }
        i += 1;
    }
    proof {
        assert(views.take(items.len() as int) =~= views);
    }
    s
}

/// The items joined by commas. No items give the empty text.
pub open spec fn join_commas(items: Seq<Seq<char>>) -> Seq<char> {
    join_by(items, ',')
}

/// The text cut at every comma: one item more than there are commas.
pub open spec fn split_commas(s: Seq<char>) -> Seq<Seq<char>> {
    split_by(s, ',')
}

/// Cutting what was joined gives the items back, where there is at least
/// one item and no item holds a comma.
pub proof fn lemma_split_join(items: Seq<Seq<char>>)
    requires
        items.len() > 0,
        forall|i: int| 0 <= i < items.len() ==> !(#[trigger] items[i]).contains(','),
    ensures
        split_commas(join_commas(items)) == items,
{
    lemma_split_join_by(items, ',');
}

/// The bounds of the items of `v`, in order: item `j` is `v[r[j].0..r[j].1]`.
pub fn split_ranges(v: &Vec<char>) -> (r: Vec<(usize, usize)>)
    ensures
        r@.len() == split_commas(v@).len(),
        forall|j: int|
            0 <= j < r@.len() ==> {
                let (a, b) = #[trigger] r@[j];
                a <= b <= v@.len() && split_commas(v@)[j] == v@.subrange(a as int, b as int)
            },
{
    split_ranges_by(v, ',')
}

/// The items joined by commas.
pub fn join_with_commas(items: &Vec<String>) -> (s: String)
    ensures
        s@ == join_commas(items@.map_values(|t: String| t@)),
{
    join_with(items, ',')
}

} // verus!
