//! Text cut to a number of columns of the terminal, where a character may
//! take no column, one, or two.

use vstd::prelude::*;
use colored::Colorize;
use unicode_width::{UnicodeWidthChar, UnicodeWidthStr};
use crate::text::{chars_of, push_char, string_of_range};

verus! {

/// The number of columns that the `unicode-width` crate gives for a
/// character, `None` for a control character.
pub uninterp spec fn char_width(c: char) -> Option<usize>;

/// The number of columns that the `unicode-width` crate gives for a text.
pub uninterp spec fn str_width(s: Seq<char>) -> usize;

/// The width of a character in columns.
///
/// Trusted: `UnicodeWidthChar::width` of the `unicode-width` crate. The
/// claim is only that the result is a function of the character, named
/// `char_width`.
#[verifier::external_body]
fn width_of_char(c: char) -> (w: Option<usize>)
    ensures
        w == char_width(c),
{
    UnicodeWidthChar::width(c)
}

/// The width of a text in columns.
///
/// Trusted: `UnicodeWidthStr::width` of the `unicode-width` crate. The
/// claim is only that the result is a function of the text, named
/// `str_width`.
#[verifier::external_body]
fn width_of_str(s: &str) -> (w: usize)
    ensures
        w == str_width(s@),
{
    UnicodeWidthStr::width(s)
}

/// The width of a text in columns.
pub fn text_width(s: &str) -> (w: usize)
    ensures
        w == str_width(s@),
{
    width_of_str(s)
}

/// The columns that a character takes: its width, or none for a control
/// character.
pub open spec fn columns_of(c: char) -> nat {
    match char_width(c) {
        Some(w) => w as nat,
        None => 0,
    }
}

/// The columns that the first `n` characters of `s` take.
pub open spec fn prefix_columns(s: Seq<char>, n: int) -> nat
    decreases n,
{
    if n <= 0 {
        0
    } else {
        prefix_columns(s, n - 1) + columns_of(s[n - 1])
    }
}

/// The first position at or after `from` before which the characters take
/// `width` columns or more; the length of `s` where there is none.
pub open spec fn first_full(s: Seq<char>, width: nat, from: int) -> int
    decreases s.len() - from,
{
    if from < 0 || from >= s.len() {
        s.len() as int
    } else if prefix_columns(s, from) >= width {
        from
    } else {
        first_full(s, width, from + 1)
    }
}

/// A text cut to `width` columns, and the columns it takes then. A text
/// that fits stays. Of any other text as many characters stay as take
/// fewer than `width` columns, less one, and an ellipsis, counted as one
/// column, follows them; in no columns nothing stays.
pub open spec fn truncated(s: Seq<char>, width: usize) -> (Seq<char>, usize) {
    let k = first_full(s, width as nat, 0);
    if k == s.len() && prefix_columns(s, k) <= width {
        (s, prefix_columns(s, k) as usize)
    } else if k >= 1 {
        (s.take(k - 1).push('\u{2026}'), (prefix_columns(s, k - 1) + 1) as usize)
    } else {
        (Seq::empty(), 0usize)
    }
}

/// Before the first full position the characters take fewer columns than
/// the width, and at it, if it lies in the text, the width or more.
proof fn lemma_first_full(s: Seq<char>, width: nat, from: int)
    requires
        0 <= from <= s.len(),
    ensures
        from <= first_full(s, width, from) <= s.len(),
        first_full(s, width, from) < s.len() ==> prefix_columns(s, first_full(s, width, from))
            >= width,
        forall|i: int| from <= i < first_full(s, width, from) ==> prefix_columns(s, i) < width,
    decreases s.len() - from,
{
    if from < s.len() && prefix_columns(s, from) < width {
        lemma_first_full(s, width, from + 1);
    }
}

/// What is cut to a width takes no more than that width.
pub proof fn lemma_truncated_fits(s: Seq<char>, width: usize)
    ensures
        truncated(s, width).1 <= width,
{
    lemma_first_full(s, width as nat, 0);
    let k = first_full(s, width as nat, 0);
    if !(k == s.len() && prefix_columns(s, k) <= width) && k >= 1 {
        assert(prefix_columns(s, k - 1) < width);
    }
}

/// Cuts a text to `width` columns. Returns the text that stays, with an
/// ellipsis where something was cut, and the columns it takes.
pub fn truncate_string(input: &str, width: usize) -> (r: (String, usize))
    ensures
        r.0@ == truncated(input@, width).0,
        r.1 == truncated(input@, width).1,
{
    let chars = chars_of(input);
    let n = chars.len();
    let ghost s = chars@;
    let mut i: usize = 0;
    let mut taken: usize = 0;
    let mut taken_before: usize = 0;
    let mut overflow = false;
    while i < n && taken < width
        invariant_except_break
            taken == prefix_columns(s, i as int),
            first_full(s, width as nat, 0) == first_full(s, width as nat, i as int),
            !overflow,
        invariant
            n == chars.len(),
            s == chars@,
            s == input@,
            i <= n,
            i > 0 ==> taken_before == prefix_columns(s, i - 1) && taken_before < width,
        ensures
            i <= n,
            i > 0 ==> taken_before == prefix_columns(s, i - 1) && taken_before < width,
            if overflow {
                &&& i > 0
                &&& prefix_columns(s, i as int) > usize::MAX
                &&& first_full(s, width as nat, 0) == i
            } else {
                &&& taken == prefix_columns(s, i as int)
                &&& first_full(s, width as nat, 0) == first_full(s, width as nat, i as int)
                &&& (i == n || taken >= width)
            },
        decreases n - i,
    {
        let w = match width_of_char(chars[i]) {
            Some(w) => w,
            None => 0,
        };
        taken_before = taken;
        i += 1;
        if w > usize::MAX - taken {
            overflow = true;
            break ;
        }
        taken = taken + w;
    }
    if !overflow && i == n && taken <= width {
        (input.to_owned(), taken)
    } else if overflow || i == n {
        // The last character does not fit.
        let mut text = string_of_range(&chars, 0, i - 1);
        push_char(&mut text, '\u{2026}');
        (text, taken_before + 1)
    } else if i >= 1 {
        let mut text = string_of_range(&chars, 0, i - 1);
        push_char(&mut text, '\u{2026}');
        (text, taken_before + 1)
    } else {
        (String::new(), 0)
    }
}

/// How a section of a line is coloured.
#[derive(Clone, Copy, Debug, PartialEq, Eq, Structural)]
pub enum Paint {
    Plain,
    Red,
    RedBold,
    GreenBold,
    Yellow,
}

/// A text in red.
///
/// Trusted: `red` and `to_string` of the `colored` crate. Nothing is claimed
/// of the result: whether it holds colour codes depends on the terminal and
/// the environment.
#[verifier::external_body]
fn red(text: &str) -> (r: String) {
    text.red().to_string()
}

/// A text in bold red.
///
/// Trusted: `red`, `bold` and `to_string` of the `colored` crate. Nothing
/// is claimed of the result: whether it holds colour codes depends on the
/// terminal and the environment.
#[verifier::external_body]
fn red_bold(text: &str) -> (r: String) {
    text.red().bold().to_string()
}

/// A text in bold green.
///
/// Trusted: `green`, `bold` and `to_string` of the `colored` crate. Nothing
/// is claimed of the result.
#[verifier::external_body]
fn green_bold(text: &str) -> (r: String) {
    text.green().bold().to_string()
}

/// A text in yellow.
///
/// Trusted: `yellow` and `to_string` of the `colored` crate. Nothing is
/// claimed of the result.
#[verifier::external_body]
fn yellow(text: &str) -> (r: String) {
    text.yellow().to_string()
}

/// The text in the colour of the paint; plain text stays as it is.
pub fn paint_text(text: &str, paint: Paint) -> (r: String)
    ensures
        paint == Paint::Plain ==> r@ == text@,
{
    match paint {
        Paint::Plain => text.to_owned(),
        Paint::Red => red(text),
        Paint::RedBold => red_bold(text),
        Paint::GreenBold => green_bold(text),
        Paint::Yellow => yellow(text),
    }
}

/// A line with a largest number of columns, built section by section.
#[derive(Debug)]
pub struct TruncatedLine {
    available_columns: usize,
    sections: Vec<(String, Paint)>,
}

/// The texts and paints of the sections of a line.
pub open spec fn section_views(sections: Seq<(String, Paint)>) -> Seq<(Seq<char>, Paint)> {
    sections.map_values(|s: (String, Paint)| (s.0@, s.1))
}

/// What of the sections from position `from` on is shown in `remaining`
/// columns. A section that fills the columns exactly while others follow
/// is cut as if it were one character longer, so that the ellipsis shows
/// that something follows, and nothing is shown after it.
pub open spec fn shown(sections: Seq<(Seq<char>, Paint)>, from: int, remaining: usize) -> Seq<
    (Seq<char>, Paint),
>
    decreases sections.len() - from,
{
    if from < 0 || from >= sections.len() {
        Seq::empty()
    } else {
        let (text, paint) = sections[from];
        let force = remaining == str_width(text) && from != sections.len() - 1;
        let cut = truncated(
            if force {
                text.push(' ')
            } else {
                text
            },
            remaining,
        );
        if force {
            seq![(cut.0, paint)]
        } else if cut.1 <= remaining {
            seq![(cut.0, paint)] + shown(sections, from + 1, (remaining - cut.1) as usize)
        } else {
            seq![(cut.0, paint)]
        }
    }
}

/// The texts of the sections, one after the other.
pub open spec fn joined(sections: Seq<(Seq<char>, Paint)>) -> Seq<char>
    decreases sections.len(),
{
    if sections.len() == 0 {
        Seq::empty()
    } else {
        joined(sections.drop_last()) + sections.last().0
    }
}

/// Whether no section is coloured.
pub open spec fn all_plain(sections: Seq<(Seq<char>, Paint)>) -> bool {
    forall|i: int| 0 <= i < sections.len() ==> (#[trigger] sections[i]).1 == Paint::Plain
}

impl TruncatedLine {
    /// The columns of the line.
    pub closed spec fn columns(&self) -> usize {
        self.available_columns
    }

    /// The sections of the line.
    pub closed spec fn sections(&self) -> Seq<(Seq<char>, Paint)> {
        section_views(self.sections@)
    }

    /// An empty line of `max_columns` columns.
    pub fn new(max_columns: usize) -> (line: Self)
        ensures
            line.columns() == max_columns,
            line.sections().len() == 0,
    {
        TruncatedLine { available_columns: max_columns, sections: Vec::new() }
    }

    /// Adds a section to the line; an empty text adds none. Without a
    /// paint the section is plain.
    pub fn append(&mut self, new_chars: &str, colorize: Option<Paint>)
        ensures
            final(self).columns() == old(self).columns(),
            final(self).sections() == (if new_chars@.len() == 0 {
                old(self).sections()
            } else {
                old(self).sections().push(
                    (
                        new_chars@,
                        match colorize {
                            Some(p) => p,
                            None => Paint::Plain,
                        },
                    ),
                )
            }),
    {
        if !new_chars.is_empty() {
            let paint = match colorize {
                Some(p) => p,
                None => Paint::Plain,
            };
            self.sections.push((new_chars.to_owned(), paint));
        }
    }

    /// The sections as they are shown in the columns of the line.
    pub fn generate(&self) -> (r: Vec<(String, Paint)>)
        ensures
            section_views(r@) == shown(self.sections(), 0, self.columns()),
    {
        let mut r: Vec<(String, Paint)> = Vec::new();
        let ghost all = section_views(self.sections@);
        let mut remaining = self.available_columns;
        let mut index: usize = 0;
        while index < self.sections.len()
            invariant
                index <= self.sections.len(),
                all == section_views(self.sections@),
                shown(all, 0, self.available_columns) == section_views(r@) + shown(
                    all,
                    index as int,
                    remaining,
                ),
            decreases self.sections.len() - index,
        {
            let text = self.sections[index].0.as_str();
            let paint = self.sections[index].1;
            let force = remaining == width_of_str(text) && index != self.sections.len() - 1;
            let (cut, width) = if force {
                let mut longer = text.to_owned();
                push_char(&mut longer, ' ');
                truncate_string(longer.as_str(), remaining)
            } else {
                truncate_string(text, remaining)
            };
            proof {
                lemma_truncated_fits(
                    if force {
                        text@.push(' ')
                    } else {
                        text@
                    },
                    remaining,
                );
            }
            r.push((cut, paint));
            if force {
                return r;
            }
            remaining = remaining - width;
            index += 1;
        }
        r
    }

    /// The line as text. Where no section is coloured, it is the texts of
    /// the sections as they are shown, one after the other; of a coloured
    /// section the text depends on the terminal.
    pub fn to_string(&self) -> (text: String)
        ensures
            all_plain(self.sections()) ==> text@ == joined(
                shown(self.sections(), 0, self.columns()),
            ),
    {
        let parts = self.generate();
        proof {
            lemma_shown_paints(self.sections(), 0, self.columns());
        }
        paint_sections(&parts)
    }
}

/// The sections as text, each in the colour of its paint, one after the
/// other. Where no section is coloured, the text is the texts of the
/// sections; of a coloured section the text depends on the terminal.
pub fn paint_sections(parts: &Vec<(String, Paint)>) -> (text: String)
    ensures
        all_plain(section_views(parts@)) ==> text@ == joined(section_views(parts@)),
        parts@.len() == 0 ==> text@.len() == 0,
{
    let ghost views = section_views(parts@);
    let mut text = String::new();
    let mut i: usize = 0;
    while i < parts.len()
        invariant
            i <= parts.len(),
            views == section_views(parts@),
            all_plain(views) ==> text@ == joined(views.take(i as int)),
            parts@.len() == 0 ==> text@.len() == 0,
        decreases parts.len() - i,
    {
        let part = &parts[i];
        if !part.0.as_str().is_empty() {
            // No colour codes go around nothing.
            text.append(paint_text(part.0.as_str(), part.1).as_str());
        }
        proof {
            let t = views.take(i + 1);
            assert(t.drop_last() =~= views.take(i as int));
            assert(t.last() == views[i as int]);
        }
        i += 1;
    }
    assert(views.take(parts.len() as int) =~= views);
    text
}

/// What is shown of sections has the paints of those sections.
pub proof fn lemma_shown_paints(sections: Seq<(Seq<char>, Paint)>, from: int, remaining: usize)
    requires
        0 <= from,
    ensures
        all_plain(sections) ==> all_plain(shown(sections, from, remaining)),
    decreases sections.len() - from,
{
    if from < sections.len() {
        let (text, paint) = sections[from];
        let force = remaining == str_width(text) && from != sections.len() - 1;
        let cut = truncated(
            if force {
                text.push(' ')
            } else {
                text
            },
            remaining,
        );
        if !force && cut.1 <= remaining {
            lemma_shown_paints(sections, from + 1, (remaining - cut.1) as usize);
        }
    }
}

} // verus!
