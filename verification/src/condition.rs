//! The condition that a filter asks of a storage engine, and what that
//! condition means for a stored row.

use vstd::prelude::*;
use crate::filter::{FilterView, MessageFilter, filter_matches, copy_vec};
use crate::message::{MessageView, State, state_code};
use crate::text::{is_prefix, push_char};

verus! {

/// The mailbox part of a condition: the row's mailbox equals `equals`, or
/// matches the pattern `like`.
#[derive(Debug, PartialEq, Eq)]
pub struct MailboxCondition {
    pub equals: String,
    pub like: String,
}

/// A condition on rows: the conjunction of the parts that are present.
/// `ids` asks that the row's id be one of the list, `states` that its state
/// code be one of the list.
#[derive(Debug, PartialEq, Eq)]
pub struct Condition {
    pub ids: Option<Vec<u32>>,
    pub mailbox: Option<MailboxCondition>,
    pub states: Option<Vec<u32>>,
}

/// A condition as a mathematical value.
pub struct ConditionView {
    pub ids: Option<Seq<u32>>,
    pub mailbox: Option<(Seq<char>, Seq<char>)>,
    pub states: Option<Seq<u32>>,
}

impl View for Condition {
    type V = ConditionView;

    open spec fn view(&self) -> ConditionView {
        ConditionView {
            ids: match self.ids {
                Some(v) => Some(v@),
                None => None,
            },
            mailbox: match self.mailbox {
                Some(c) => Some((c.equals@, c.like@)),
                None => None,
            },
            states: match self.states {
                Some(v) => Some(v@),
                None => None,
            },
        }
    }
}

/// The character that takes the special meaning from the character behind
/// it in a pattern. The engine is told of it with every pattern.
pub const LIKE_ESCAPE: char = '\\';

/// Whether a character has a special meaning in a pattern.
pub open spec fn is_special(c: char) -> bool {
    c == '%' || c == '_' || c == LIKE_ESCAPE
}

/// The text as a pattern that matches that text and no other: every
/// character that has a special meaning in a pattern stands behind the
/// escape character.
pub open spec fn escaped(text: Seq<char>) -> Seq<char>
    decreases text.len(),
{
    if text.len() == 0 {
        Seq::empty()
    } else if is_special(text.last()) {
        escaped(text.drop_last()).push(LIKE_ESCAPE).push(text.last())
    } else {
        escaped(text.drop_last()).push(text.last())
    }
}

/// The pattern that matches everything below the mailbox `root`: the path
/// with its special characters escaped, a slash, and the wildcard `%`.
pub open spec fn subtree_pattern(root: Seq<char>) -> Seq<char> {
    escaped(root).push('/').push('%')
}

/// The codes of a list of states.
pub open spec fn state_codes(states: Seq<State>) -> Seq<u32> {
    states.map_values(|s: State| state_code(s))
}

/// The condition that stands for a filter.
pub open spec fn where_of(f: FilterView) -> ConditionView {
    ConditionView {
        ids: f.ids,
        mailbox: match f.mailbox {
            Some(root) => Some((root, subtree_pattern(root))),
            None => None,
        },
        states: match f.states {
            Some(states) => Some(state_codes(states)),
            None => None,
        },
    }
}

/// Pattern matching as in SQL's `LIKE` with the escape character
/// `LIKE_ESCAPE`, letter case compared exactly, which the engine is set
/// to: `%` stands for any run of characters, `_` for any one character, the
/// escape character with the character behind it for that character, and
/// every other character for itself. A pattern that ends in the escape
/// character matches nothing.
pub open spec fn like_matches(pattern: Seq<char>, text: Seq<char>) -> bool
    decreases pattern.len(), text.len(),
{
    if pattern.len() == 0 {
        text.len() == 0
    } else if pattern[0] == LIKE_ESCAPE {
        pattern.len() >= 2 && text.len() > 0 && text[0] == pattern[1] && like_matches(
            pattern.skip(2),
            text.drop_first(),
        )
    } else if pattern[0] == '%' {
        like_matches(pattern.drop_first(), text) || (text.len() > 0 && like_matches(
            pattern,
            text.drop_first(),
        ))
    } else if pattern[0] == '_' {
        text.len() > 0 && like_matches(pattern.drop_first(), text.drop_first())
    } else {
        text.len() > 0 && text[0] == pattern[0] && like_matches(
            pattern.drop_first(),
            text.drop_first(),
        )
    }
}

/// Whether a row with the given id, mailbox and state code meets a
/// condition.
pub open spec fn condition_holds(c: ConditionView, id: u32, mailbox: Seq<char>, state: u32) -> bool {
    &&& c.ids matches Some(ids) ==> ids.contains(id)
    &&& c.mailbox matches Some(part) ==> mailbox == part.0 || like_matches(part.1, mailbox)
    &&& c.states matches Some(states) ==> states.contains(state)
}

/// The lone wildcard matches every text.
proof fn lemma_like_percent(text: Seq<char>)
    ensures
        like_matches(seq!['%'], text),
    decreases text.len(),
{
    let p = seq!['%'];
    if text.len() > 0 {
        lemma_like_percent(text.drop_first());
    } else {
        assert(like_matches(p.drop_first(), text));
    }
}

/// The pattern of a text with one more character in front.
proof fn lemma_escaped_front(c: char, rest: Seq<char>)
    ensures
        escaped(seq![c] + rest) == (if is_special(c) {
            seq![LIKE_ESCAPE, c]
        } else {
            seq![c]
        }) + escaped(rest),
    decreases rest.len(),
{
    let text = seq![c] + rest;
    let head = if is_special(c) {
        seq![LIKE_ESCAPE, c]
    } else {
        seq![c]
    };
    if rest.len() == 0 {
        assert(text.drop_last() =~= Seq::<char>::empty());
        assert(text.last() == c);
        assert(escaped(text.drop_last()) =~= Seq::<char>::empty());
        assert(escaped(text) =~= head + escaped(rest));
    } else {
        lemma_escaped_front(c, rest.drop_last());
        assert(text.drop_last() =~= seq![c] + rest.drop_last());
        assert(text.last() == rest.last());
        assert(escaped(text) =~= head + escaped(rest));
    }
}

/// The pattern of a text, followed by the wildcard, matches exactly the
/// texts that start with that text.
proof fn lemma_like_prefix(plain: Seq<char>, text: Seq<char>)
    ensures
        like_matches(escaped(plain).push('%'), text) == is_prefix(plain, text),
    decreases plain.len(),
{
    let p = escaped(plain).push('%');
    if plain.len() == 0 {
        assert(p =~= seq!['%']);
        lemma_like_percent(text);
        assert(text.take(0) =~= plain);
    } else {
        let c = plain[0];
        let rest = plain.drop_first();
        assert(plain =~= seq![c] + rest);
        lemma_escaped_front(c, rest);
        let tail = escaped(rest).push('%');
        if is_special(c) {
            assert(p =~= seq![LIKE_ESCAPE, c] + tail);
            assert(p[0] == LIKE_ESCAPE && p[1] == c);
            assert(p.skip(2) =~= tail);
        } else {
            assert(p =~= seq![c] + tail);
            assert(p[0] == c);
            assert(p.drop_first() =~= tail);
        }
        assert(like_matches(p, text) == (text.len() > 0 && text[0] == c && like_matches(
            tail,
            text.drop_first(),
        )));
        if text.len() > 0 {
            let t = text.drop_first();
            lemma_like_prefix(rest, t);
            if text[0] == c {
                if is_prefix(rest, t) {
                    assert(text.take(plain.len() as int) =~= plain) by {
                        assert forall|k: int| 0 <= k < plain.len() implies text.take(
                            plain.len() as int,
                        )[k] == plain[k] by {
                            if k > 0 {
                                assert(t.take(rest.len() as int)[k - 1] == rest[k - 1]);
                            }
                        }
                    }
                }
                if is_prefix(plain, text) {
                    assert(t.take(rest.len() as int) =~= rest) by {
                        assert forall|k: int| 0 <= k < rest.len() implies t.take(
                            rest.len() as int,
                        )[k] == rest[k] by {
                            assert(text.take(plain.len() as int)[k + 1] == plain[k + 1]);
                        }
                    }
                }
            } else {
                if is_prefix(plain, text) {
                    assert(text.take(plain.len() as int)[0] == plain[0]);
                }
            }
        }
    }
}

/// The condition built from a filter admits a stored row exactly when the
/// filter admits the message.
pub proof fn lemma_condition_agrees_with_filter(f: FilterView, m: MessageView)
    ensures
        condition_holds(where_of(f), m.id, m.mailbox, state_code(m.state)) == filter_matches(f, m),
{
    if let Some(root) = f.mailbox {
        let plain = root.push('/');
        assert(escaped(plain) =~= escaped(root).push('/')) by {
            assert(plain.drop_last() =~= root);
        }
        lemma_like_prefix(plain, m.mailbox);
    }
    if let Some(states) = f.states {
        let codes = state_codes(states);
        if states.contains(m.state) {
            let i = choose|i: int| 0 <= i < states.len() && states[i] == m.state;
            assert(codes[i] == state_code(m.state));
        }
    }
}

/// The text as a pattern that matches that text and no other.
pub fn escape_pattern(text: &str) -> (pattern: String)
    ensures
        pattern@ == escaped(text@),
{
    let chars = crate::text::chars_of(text);
    let mut pattern = String::new();
    let mut i: usize = 0;
    assert(chars@.take(0) =~= Seq::<char>::empty());
    while i < chars.len()
        invariant
            i <= chars.len(),
            chars@ == text@,
            pattern@ == escaped(chars@.take(i as int)),
        decreases chars.len() - i,
    {
        let c = chars[i];
        proof {
            let t = chars@.take(i + 1);
            assert(t.drop_last() =~= chars@.take(i as int));
            assert(t.last() == c);
        }
        if c == '%' || c == '_' || c == LIKE_ESCAPE {
            push_char(&mut pattern, LIKE_ESCAPE);
        }
        push_char(&mut pattern, c);
        i += 1;
    }
    assert(chars@.take(chars.len() as int) =~= chars@);
    pattern
}

impl MessageFilter {
    /// The condition that admits the rows of the messages that this filter
    /// admits: the id is one of `ids`, the mailbox equals the filter's or
    /// matches the pattern of that mailbox, a slash and `%`, and the state
    /// code is one of those of `states`; a part is left out where the
    /// filter does not constrain it.
    pub fn get_where(self) -> (c: Condition)
        ensures
            c@ == where_of(self@),
    {
        let ids = match self.ids() {
            Some(v) => Some(copy_vec(v)),
            None => None,
        };
        let mailbox = match self.mailbox() {
            Some(m) => {
                let equals = m.as_str().to_owned();
                let mut like = escape_pattern(m.as_str());
                push_char(&mut like, '/');
                push_char(&mut like, '%');
                Some(MailboxCondition { equals, like })
            },
            None => None,
        };
        let states = match self.states() {
            Some(v) => {
                let mut codes: Vec<u32> = Vec::new();
                let mut i: usize = 0;
                while i < v.len()
                    invariant
                        i <= v.len(),
                        codes@ == state_codes(v@.take(i as int)),
                    decreases v.len() - i,
                {
                    codes.push(v[i].code());
                    i += 1;
                }
                assert(v@.take(v.len() as int) =~= v@);
                Some(codes)
            },
            None => None,
        };
        Condition { ids, mailbox, states }
    }
}

} // verus!
