//! The query form of a filter: the shape in which a filter travels in a URL,
//! with `ids` and `states` written as comma-separated lists.

use vstd::prelude::*;
use vstd::std_specs::convert::TryFromSpecImpl;
use crate::separated::{
    join_commas,
    split_commas,
    split_ranges,
    join_with_commas,
    lemma_split_join,
};
use crate::decimal::{
    decimal,
    parse_u32,
    read_u32,
    format_u64,
    lemma_decimal_digits,
    lemma_decimal_value,
};
use crate::filter::{FilterView, MessageFilter};
use crate::mailbox::{Mailbox, MailboxError, mailbox_error, valid_mailbox};
use crate::message::{State, state_word, lemma_state_words_differ};
use crate::text::{chars_of, same_text, string_of_range};

verus! {

/// Why a query is not a filter.
#[derive(Clone, Copy, Debug, PartialEq, Eq, Structural)]
pub enum FilterError {
    /// An item of `ids` is not a 32-bit number.
    InvalidId,
    /// An item of `states` names no state.
    InvalidState,
    /// The value of `mailbox` is not a mailbox path.
    InvalidMailbox(MailboxError),
    /// A field other than `ids`, `mailbox` and `states`.
    UnknownField,
    /// A field that occurs twice.
    DuplicateField,
}

/// A filter in query form: the lists as comma-separated text.
#[derive(Debug, PartialEq, Eq)]
pub struct Filter {
    pub ids: Option<String>,
    pub mailbox: Option<Mailbox>,
    pub states: Option<String>,
}

/// A query as a mathematical value.
pub struct QueryView {
    pub ids: Option<Seq<char>>,
    pub mailbox: Option<Seq<char>>,
    pub states: Option<Seq<char>>,
}

impl View for Filter {
    type V = QueryView;

    open spec fn view(&self) -> QueryView {
        QueryView {
            ids: match self.ids {
                Some(t) => Some(t@),
                None => None,
            },
            mailbox: match self.mailbox {
                Some(m) => Some(m@),
                None => None,
            },
            states: match self.states {
                Some(t) => Some(t@),
                None => None,
            },
        }
    }
}

/// The numerals of a list of ids.
pub open spec fn id_words(ids: Seq<u32>) -> Seq<Seq<char>> {
    ids.map_values(|n: u32| decimal(n as nat))
}

/// The words of a list of states.
pub open spec fn state_words(states: Seq<State>) -> Seq<Seq<char>> {
    states.map_values(|s: State| state_word(s))
}

/// The state that a word names.
pub open spec fn word_state(word: Seq<char>) -> Option<State> {
    if word == state_word(State::Unread) {
        Some(State::Unread)
    } else if word == state_word(State::Read) {
        Some(State::Read)
    } else if word == state_word(State::Archived) {
        Some(State::Archived)
    } else {
        None
    }
}

/// The ids that a text lists. The empty text lists none; any other text is
/// cut at its commas, and every item must be a 32-bit number.
pub open spec fn parse_ids(text: Seq<char>) -> Option<Seq<u32>> {
    if text.len() == 0 {
        Some(Seq::empty())
    } else {
        let items = split_commas(text);
        if forall|i: int| 0 <= i < items.len() ==> parse_u32(#[trigger] items[i]) is Some {
            Some(items.map_values(|w: Seq<char>| parse_u32(w).unwrap()))
        } else {
            None
        }
    }
}

/// The states that a text lists. The empty text lists none; any other text
/// is cut at its commas, and every item must name a state.
pub open spec fn parse_states(text: Seq<char>) -> Option<Seq<State>> {
    if text.len() == 0 {
        Some(Seq::empty())
    } else {
        let items = split_commas(text);
        if forall|i: int| 0 <= i < items.len() ==> word_state(#[trigger] items[i]) is Some {
            Some(items.map_values(|w: Seq<char>| word_state(w).unwrap()))
        } else {
            None
        }
    }
}

/// The query form of a filter: only the fields that are present.
pub open spec fn query_of(f: FilterView) -> QueryView {
    QueryView {
        ids: match f.ids {
            Some(ids) => Some(join_commas(id_words(ids))),
            None => None,
        },
        mailbox: f.mailbox,
        states: match f.states {
            Some(states) => Some(join_commas(state_words(states))),
            None => None,
        },
    }
}

/// The filter that a query stands for: `ids` is read first, then `states`.
pub open spec fn filter_of(q: QueryView) -> Result<FilterView, FilterError> {
    let ids = match q.ids {
        Some(t) => parse_ids(t),
        None => None,
    };
    let states = match q.states {
        Some(t) => parse_states(t),
        None => None,
    };
    if q.ids is Some && ids is None {
        Err(FilterError::InvalidId)
    } else if q.states is Some && states is None {
        Err(FilterError::InvalidState)
    } else {
        Ok(FilterView { ids, mailbox: q.mailbox, states })
    }
}

/// Reading the written list of ids gives the ids back.
pub proof fn lemma_parse_ids_round_trip(ids: Seq<u32>)
    ensures
        parse_ids(join_commas(id_words(ids))) == Some(ids),
{
    let words = id_words(ids);
    if ids.len() == 0 {
    } else {
        assert forall|i: int| 0 <= i < words.len() implies !(#[trigger] words[i]).contains(',') by {
            lemma_decimal_digits(ids[i] as nat);
        }
        lemma_split_join(words);
        assert forall|i: int| 0 <= i < words.len() implies parse_u32(#[trigger] words[i]) == Some(
            ids[i],
        ) by {
            lemma_decimal_value(ids[i] as nat);
        }
    }
}

/// Reading the written list of states gives the states back.
pub proof fn lemma_parse_states_round_trip(states: Seq<State>)
    ensures
        parse_states(join_commas(state_words(states))) == Some(states),
{
    let words = state_words(states);
    lemma_state_words_differ();
    if states.len() == 0 {
    } else {
        lemma_split_join(words);
    }
}

/// A filter survives the way into query form and back, whatever its fields
/// hold.
pub proof fn lemma_query_round_trip(f: FilterView)
    ensures
        filter_of(query_of(f)) == Ok::<FilterView, FilterError>(f),
{
    if let Some(ids) = f.ids {
        lemma_parse_ids_round_trip(ids);
    }
    if let Some(states) = f.states {
        lemma_parse_states_round_trip(states);
    }
}

/// The ids that `text` lists; `None` where an item is no 32-bit number.
pub fn parse_id_list(text: &str) -> (r: Option<Vec<u32>>)
    ensures
        match r {
            Some(v) => parse_ids(text@) == Some(v@),
            None => parse_ids(text@) is None,
        },
{
    let chars = chars_of(text);
    let mut ids: Vec<u32> = Vec::new();
    if chars.len() == 0 {
        return Some(ids);
    }
    let ranges = split_ranges(&chars);
    let ghost items = split_commas(chars@);
    let mut j: usize = 0;
    while j < ranges.len()
        invariant
            j <= ranges.len(),
            chars@ == text@,
            chars@.len() > 0,
            items == split_commas(chars@),
            ranges@.len() == items.len(),
            forall|k: int|
                0 <= k < ranges@.len() ==> {
                    let (a, b) = #[trigger] ranges@[k];
                    a <= b <= chars@.len() && items[k] == chars@.subrange(a as int, b as int)
                },
            ids@.len() == j,
            forall|k: int| 0 <= k < j ==> parse_u32(#[trigger] items[k]) == Some(ids@[k]),
        decreases ranges.len() - j,
    {
        let (a, b) = ranges[j];
        match read_u32(&chars, a, b) {
            Some(n) => {
                ids.push(n);
            },
            None => {
                return None;
            },
        }
        j += 1;
    }
    Some(ids)
}

/// The state that the word `v[from..to]` names.
fn read_state(v: &Vec<char>, from: usize, to: usize) -> (r: Option<State>)
    requires
        from <= to <= v.len(),
    ensures
        r == word_state(v@.subrange(from as int, to as int)),
{
    let word = string_of_range(v, from, to);
    match State::from_word(word.as_str()) {
        Ok(s) => {
            proof {
                lemma_state_words_differ();
            }
            Some(s)
        },
        Err(_) => None,
    }
}

/// The states that `text` lists; `None` where an item names no state.
pub fn parse_state_list(text: &str) -> (r: Option<Vec<State>>)
    ensures
        match r {
            Some(v) => parse_states(text@) == Some(v@),
            None => parse_states(text@) is None,
        },
{
    let chars = chars_of(text);
    let mut states: Vec<State> = Vec::new();
    if chars.len() == 0 {
        return Some(states);
    }
    let ranges = split_ranges(&chars);
    let ghost items = split_commas(chars@);
    let mut j: usize = 0;
    while j < ranges.len()
        invariant
            j <= ranges.len(),
            chars@ == text@,
            chars@.len() > 0,
            items == split_commas(chars@),
            ranges@.len() == items.len(),
            forall|k: int|
                0 <= k < ranges@.len() ==> {
                    let (a, b) = #[trigger] ranges@[k];
                    a <= b <= chars@.len() && items[k] == chars@.subrange(a as int, b as int)
                },
            states@.len() == j,
            forall|k: int| 0 <= k < j ==> word_state(#[trigger] items[k]) == Some(states@[k]),
        decreases ranges.len() - j,
    {
        let (a, b) = ranges[j];
        match read_state(&chars, a, b) {
            Some(s) => {
                states.push(s);
            },
            None => {
                return None;
            },
        }
        j += 1;
    }
    Some(states)
}

/// The ids as a comma-separated list of numerals.
pub fn format_id_list(ids: &Vec<u32>) -> (s: String)
    ensures
        s@ == join_commas(id_words(ids@)),
{
    let mut words: Vec<String> = Vec::new();
    let mut i: usize = 0;
    while i < ids.len()
        invariant
            i <= ids.len(),
            words@.map_values(|t: String| t@) == id_words(ids@.take(i as int)),
        decreases ids.len() - i,
    {
        let word = format_u64(ids[i] as u64);
        words.push(word);
        i += 1;
        proof {
            assert(id_words(ids@.take(i as int)) =~= id_words(ids@.take(i - 1)).push(
                decimal(ids@[i - 1] as nat),
            ));
        }
    }
    assert(ids@.take(ids.len() as int) =~= ids@);
    join_with_commas(&words)
}

/// The states as a comma-separated list of words.
pub fn format_state_list(states: &Vec<State>) -> (s: String)
    ensures
        s@ == join_commas(state_words(states@)),
{
    let mut words: Vec<String> = Vec::new();
    let mut i: usize = 0;
    while i < states.len()
        invariant
            i <= states.len(),
            words@.map_values(|t: String| t@) == state_words(states@.take(i as int)),
        decreases states.len() - i,
    {
        let word = states[i].as_str().to_owned();
        words.push(word);
        i += 1;
        proof {
            assert(state_words(states@.take(i as int)) =~= state_words(states@.take(i - 1)).push(
                state_word(states@[i - 1]),
            ));
        }
    }
    assert(states@.take(states.len() as int) =~= states@);
    join_with_commas(&words)
}

impl MessageFilter {
    /// This filter in query form.
    pub fn to_query(&self) -> (q: Filter)
        ensures
            q@ == query_of(self@),
    {
        Filter {
            ids: match self.ids() {
                Some(v) => Some(format_id_list(v)),
                None => None,
            },
            mailbox: match self.mailbox() {
                Some(m) => Some(m.clone()),
                None => None,
            },
            states: match self.states() {
                Some(v) => Some(format_state_list(v)),
                None => None,
            },
        }
    }

    /// The filter that a query stands for. Fails on the first list, `ids`
    /// before `states`, that holds an item that cannot be read.
    pub fn from_query(q: Filter) -> (r: Result<MessageFilter, FilterError>)
        ensures
            match r {
                Ok(f) => filter_of(q@) == Ok::<FilterView, FilterError>(f@),
                Err(e) => filter_of(q@) == Err::<FilterView, FilterError>(e),
            },
    {
        let mut filter = MessageFilter::new();
        if let Some(text) = &q.ids {
            match parse_id_list(text.as_str()) {
                Some(ids) => {
                    filter = filter.with_ids(ids);
                },
                None => {
                    return Err(FilterError::InvalidId);
                },
            }
        }
        if let Some(text) = &q.states {
            match parse_state_list(text.as_str()) {
                Some(states) => {
                    filter = filter.with_states(states);
                },
                None => {
                    return Err(FilterError::InvalidState);
                },
            }
        }
        let filter = filter.with_mailbox_option(q.mailbox);
        Ok(filter)
    }
}

impl TryFrom<Filter> for MessageFilter {
    type Error = FilterError;

    fn try_from(value: Filter) -> (r: Result<MessageFilter, FilterError>)
        ensures
            match r {
                Ok(f) => filter_of(value@) == Ok::<FilterView, FilterError>(f@),
                Err(e) => filter_of(value@) == Err::<FilterView, FilterError>(e),
            },
    {
        MessageFilter::from_query(value)
    }
}

/// The conversion says what it returns in its own contract.
impl TryFromSpecImpl<Filter> for MessageFilter {
    open spec fn obeys_try_from_spec() -> bool {
        false
    }

    open spec fn try_from_spec(v: Filter) -> Result<Self, FilterError> {
        arbitrary()
    }
}

/// The views of a list of name and value pairs.
pub open spec fn pair_views(pairs: Seq<(String, String)>) -> Seq<(Seq<char>, Seq<char>)> {
    pairs.map_values(|p: (String, String)| (p.0@, p.1@))
}

/// The query without any field.
pub open spec fn empty_query() -> QueryView {
    QueryView { ids: None, mailbox: None, states: None }
}

/// The name and value pairs of a query: `ids`, `mailbox` and `states`, in
/// this order, each only where it is present.
pub open spec fn query_pairs(q: QueryView) -> Seq<(Seq<char>, Seq<char>)> {
    let ids = match q.ids {
        Some(t) => seq![("ids"@, t)],
        None => seq![],
    };
    let mailbox = match q.mailbox {
        Some(t) => seq![("mailbox"@, t)],
        None => seq![],
    };
    let states = match q.states {
        Some(t) => seq![("states"@, t)],
        None => seq![],
    };
    ids + mailbox + states
}

/// The query `q` with one more pair: the name must be one of the three
/// fields, must not have been given before, and a mailbox must be a
/// mailbox path.
pub open spec fn add_pair(q: QueryView, name: Seq<char>, value: Seq<char>) -> Result<
    QueryView,
    FilterError,
> {
    if name == "ids"@ {
        if q.ids is Some {
            Err(FilterError::DuplicateField)
        } else {
            Ok(QueryView { ids: Some(value), ..q })
        }
    } else if name == "mailbox"@ {
        if q.mailbox is Some {
            Err(FilterError::DuplicateField)
        } else {
            match mailbox_error(value) {
                Some(e) => Err(FilterError::InvalidMailbox(e)),
                None => Ok(QueryView { mailbox: Some(value), ..q }),
            }
        }
    } else if name == "states"@ {
        if q.states is Some {
            Err(FilterError::DuplicateField)
        } else {
            Ok(QueryView { states: Some(value), ..q })
        }
    } else {
        Err(FilterError::UnknownField)
    }
}

/// The query `q` with the pairs added one by one, first to last; the first
/// pair that cannot be added decides the error.
pub open spec fn add_pairs(q: QueryView, pairs: Seq<(Seq<char>, Seq<char>)>) -> Result<
    QueryView,
    FilterError,
>
    decreases pairs.len(),
{
    if pairs.len() == 0 {
        Ok(q)
    } else {
        match add_pair(q, pairs[0].0, pairs[0].1) {
            Ok(next) => add_pairs(next, pairs.drop_first()),
            Err(e) => Err(e),
        }
    }
}

/// The filter that a list of pairs stands for.
pub open spec fn filter_of_pairs(pairs: Seq<(Seq<char>, Seq<char>)>) -> Result<
    FilterView,
    FilterError,
> {
    match add_pairs(empty_query(), pairs) {
        Ok(q) => filter_of(q),
        Err(e) => Err(e),
    }
}

/// The three field names differ from one another.
proof fn lemma_field_names()
    ensures
        "ids"@ != "mailbox"@,
        "ids"@ != "states"@,
        "mailbox"@ != "states"@,
{
    reveal_strlit("ids");
    reveal_strlit("mailbox");
    reveal_strlit("states");
    assert("ids"@.len() == 3 && "mailbox"@.len() == 7 && "states"@.len() == 6);
}

/// Reading the pairs of a query gives the query back, where its mailbox is
/// a mailbox path.
pub proof fn lemma_pairs_round_trip(q: QueryView)
    requires
        q.mailbox matches Some(m) ==> valid_mailbox(m),
    ensures
        add_pairs(empty_query(), query_pairs(q)) == Ok::<QueryView, FilterError>(q),
{
    lemma_field_names();
    reveal_with_fuel(add_pairs, 4);
}

/// A filter survives the way into pairs and back.
pub proof fn lemma_filter_pairs_round_trip(f: FilterView)
    requires
        f.mailbox matches Some(m) ==> valid_mailbox(m),
    ensures
        filter_of_pairs(query_pairs(query_of(f))) == Ok::<FilterView, FilterError>(f),
{
    lemma_pairs_round_trip(query_of(f));
    lemma_query_round_trip(f);
}

/// The text that the form serializer of the `form_urlencoded` crate writes
/// for a list of pairs.
pub uninterp spec fn form_encoded(pairs: Seq<(Seq<char>, Seq<char>)>) -> Seq<char>;

/// The pairs that the form parser of the `form_urlencoded` crate reads from
/// a text.
pub uninterp spec fn form_parsed(text: Seq<char>) -> Seq<(Seq<char>, Seq<char>)>;

/// Writes pairs in `application/x-www-form-urlencoded` syntax.
///
/// Trusted: `Serializer::new`, `extend_pairs` and `finish` of the
/// `form_urlencoded` crate, on an empty target. The claim is only that the
/// text is a function of the pairs, named `form_encoded`.
#[verifier::external_body]
fn form_encode(pairs: &Vec<(String, String)>) -> (text: String)
    ensures
        text@ == form_encoded(pair_views(pairs@)),
{
    form_urlencoded::Serializer::new(String::new()).extend_pairs(pairs).finish()
}

/// Reads the pairs of a text in `application/x-www-form-urlencoded` syntax.
///
/// Trusted: `parse` of the `form_urlencoded` crate, its items made owned.
/// The claim is that the pairs are a function of the text, named
/// `form_parsed`, and that the empty text holds no pairs.
#[verifier::external_body]
fn form_parse(text: &str) -> (pairs: Vec<(String, String)>)
    ensures
        pair_views(pairs@) == form_parsed(text@),
        text@.len() == 0 ==> pairs@.len() == 0,
{
    form_urlencoded::parse(text.as_bytes()).into_owned().collect()
}

impl Filter {
    /// The query without any field.
    pub fn new() -> (q: Filter)
        ensures
            q@ == empty_query(),
    {
        Filter { ids: None, mailbox: None, states: None }
    }

    /// The name and value pairs of this query.
    pub fn to_pairs(&self) -> (pairs: Vec<(String, String)>)
        ensures
            pair_views(pairs@) == query_pairs(self@),
    {
        let mut pairs: Vec<(String, String)> = Vec::new();
        if let Some(t) = &self.ids {
            pairs.push(("ids".to_owned(), t.clone()));
        }
        if let Some(m) = &self.mailbox {
            pairs.push(("mailbox".to_owned(), m.as_str().to_owned()));
        }
        if let Some(t) = &self.states {
            pairs.push(("states".to_owned(), t.clone()));
        }
        pairs
    }

    /// The query that a list of pairs stands for: every name is one of
    /// `ids`, `mailbox` and `states`, none occurs twice, and the mailbox is
    /// a mailbox path. The first pair that breaks a rule decides the error.
    pub fn from_pairs(pairs: &Vec<(String, String)>) -> (r: Result<Filter, FilterError>)
        ensures
            match r {
                Ok(q) => add_pairs(empty_query(), pair_views(pairs@)) == Ok::<QueryView, FilterError>(
                    q@,
                ),
                Err(e) => add_pairs(empty_query(), pair_views(pairs@)) == Err::<
                    QueryView,
                    FilterError,
                >(e),
            },
    {
        let mut q = Filter::new();
        let ghost all = pair_views(pairs@);
        let mut i: usize = 0;
        assert(all.skip(0) =~= all);
        while i < pairs.len()
            invariant
                i <= pairs.len(),
                all == pair_views(pairs@),
                add_pairs(empty_query(), all) == add_pairs(q@, all.skip(i as int)),
            decreases pairs.len() - i,
        {
            let name = pairs[i].0.as_str();
            let value = pairs[i].1.as_str();
            proof {
                let rest = all.skip(i as int);
                assert(rest.drop_first() =~= all.skip(i + 1));
            }
            if same_text(name, "ids") {
                if q.ids.is_some() {
                    return Err(FilterError::DuplicateField);
                }
                q.ids = Some(value.to_owned());
            } else if same_text(name, "mailbox") {
                if q.mailbox.is_some() {
                    return Err(FilterError::DuplicateField);
                }
                match Mailbox::parse(value) {
                    Ok(m) => {
                        q.mailbox = Some(m);
                    },
                    Err(e) => {
                        return Err(FilterError::InvalidMailbox(e));
                    },
                }
            } else if same_text(name, "states") {
                if q.states.is_some() {
                    return Err(FilterError::DuplicateField);
                }
                q.states = Some(value.to_owned());
            } else {
                return Err(FilterError::UnknownField);
            }
            i += 1;
        }
        Ok(q)
    }
}

impl MessageFilter {
    /// The filter that a list of name and value pairs stands for.
    pub fn from_pairs(pairs: &Vec<(String, String)>) -> (r: Result<MessageFilter, FilterError>)
        ensures
            match r {
                Ok(f) => filter_of_pairs(pair_views(pairs@)) == Ok::<FilterView, FilterError>(f@),
                Err(e) => filter_of_pairs(pair_views(pairs@)) == Err::<FilterView, FilterError>(e),
            },
    {
        match Filter::from_pairs(pairs) {
            Ok(q) => MessageFilter::from_query(q),
            Err(e) => Err(e),
        }
    }

    /// This filter as the query string of a URL: the pairs of its query
    /// form, written by the form serializer.
    pub fn to_query_string(&self) -> (text: String)
        ensures
            text@ == form_encoded(query_pairs(query_of(self@))),
    {
        let pairs = self.to_query().to_pairs();
        form_encode(&pairs)
    }

    /// The filter that the query string of a URL stands for: the pairs that
    /// the form parser reads from it, taken as by `from_pairs`.
    pub fn from_query_string(text: &str) -> (r: Result<MessageFilter, FilterError>)
        ensures
            match r {
                Ok(f) => filter_of_pairs(form_parsed(text@)) == Ok::<FilterView, FilterError>(f@),
                Err(e) => filter_of_pairs(form_parsed(text@)) == Err::<FilterView, FilterError>(e),
            },
            text@.len() == 0 ==> (r matches Ok(f) && f@ == (FilterView {
                ids: None,
                mailbox: None,
                states: None,
            })),
    {
        let pairs = form_parse(text);
        MessageFilter::from_pairs(&pairs)
    }
}

} // verus!
