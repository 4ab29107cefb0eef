//! Decimal numerals: how numbers are written into text and read back.

use vstd::prelude::*;
use crate::text::push_char;

verus! {

/// The character for the digit `d`.
pub open spec fn digit_char(d: int) -> char {
    (48 + d) as char
}

/// Whether `c` is one of `0` to `9`.
pub open spec fn is_digit(c: char) -> bool {
    48 <= c as int <= 57
}

/// The number that the digit `c` stands for.
pub open spec fn digit_value(c: char) -> int {
    c as int - 48
}

/// The decimal numeral of `n`, without sign or leading zeros.
pub open spec fn decimal(n: nat) -> Seq<char>
    decreases n,
{
    if n < 10 {
        seq![digit_char(n as int)]
    } else {
        decimal(n / 10).push(digit_char((n % 10) as int))
    }
}

/// Whether `s` holds digits only.
pub open spec fn all_digits(s: Seq<char>) -> bool {
    forall|i: int| 0 <= i < s.len() ==> is_digit(#[trigger] s[i])
}

/// The number that a run of digits stands for.
pub open spec fn digits_value(s: Seq<char>) -> nat
    decreases s.len(),
{
    if s.len() == 0 {
        0
    } else {
        (digits_value(s.drop_last()) * 10 + digit_value(s.last())) as nat
    }
}

/// What remains of a numeral once a leading plus sign is taken away.
pub open spec fn unsigned_part(s: Seq<char>) -> Seq<char> {
    if s.len() > 0 && s[0] == '+' {
        s.drop_first()
    } else {
        s
    }
}

/// The number that `s` denotes: an optional plus sign, then one or more
/// digits. Anything else denotes no number.
pub open spec fn parse_decimal(s: Seq<char>) -> Option<nat> {
    let body = unsigned_part(s);
    if body.len() > 0 && all_digits(body) {
        Some(digits_value(body))
    } else {
        None
    }
}

/// The 32-bit number that `s` denotes, where it denotes one that fits.
pub open spec fn parse_u32(s: Seq<char>) -> Option<u32> {
    match parse_decimal(s) {
        Some(v) => if v <= u32::MAX {
            Some(v as u32)
        } else {
            None
        },
        None => None,
    }
}

/// A numeral is made of digits, and is never empty.
pub proof fn lemma_decimal_digits(n: nat)
    ensures
        decimal(n).len() > 0,
        all_digits(decimal(n)),
        !decimal(n).contains(','),
        decimal(n)[0] != '+',
    decreases n,
{
    if n >= 10 {
        lemma_decimal_digits(n / 10);
    }
}

/// Reading a numeral gives back the number it was written from.
pub proof fn lemma_decimal_value(n: nat)
    ensures
        digits_value(decimal(n)) == n,
        parse_decimal(decimal(n)) == Some(n),
    decreases n,
{
    lemma_decimal_digits(n);
    if n < 10 {
        let d = decimal(n);
        assert(digits_value(d.drop_last()) == 0);
    } else {
        lemma_decimal_value(n / 10);
        let d = decimal(n);
        assert(d.drop_last() =~= decimal(n / 10));
    }
}

/// Digits in front of a run do not make its value smaller.
proof fn lemma_digits_value_grows(s: Seq<char>, k: int)
    requires
        0 <= k <= s.len(),
        all_digits(s),
    ensures
        digits_value(s.take(k)) <= digits_value(s),
    decreases s.len() - k,
{
    if k == s.len() {
        assert(s.take(k) =~= s);
    } else {
        lemma_digits_value_grows(s, k + 1);
        let t = s.take(k + 1);
        assert(t.drop_last() =~= s.take(k));
    }
}

/// Writes `n` as a decimal numeral.
pub fn format_u64(n: u64) -> (s: String)
    ensures
        s@ == decimal(n as nat),
{
    format_u128(n as u128)
}

/// Writes `n` as a decimal numeral.
pub fn format_u128(n: u128) -> (s: String)
    ensures
        s@ == decimal(n as nat),
{
    let mut digits: Vec<char> = Vec::new();
    let mut rest: u128 = n;
    // Collect the digits from the last to the first.
    while rest >= 10
        invariant
            decimal(n as nat) == decimal(rest as nat) + digits@.reverse(),
        decreases rest,
    {
        let d = (rest % 10) as u8;
        let c = (48u8 + d) as char;
        digits.push(c);
        rest = rest / 10;
    }
    let first = (48u8 + (rest as u8)) as char;
    let mut s = String::new();
    push_char(&mut s, first);
    let mut i: usize = digits.len();
    while i > 0
        invariant
            i <= digits.len(),
            s@ == decimal(rest as nat) + digits@.reverse().take(digits.len() - i),
        decreases i,
    {
        i -= 1;
        push_char(&mut s, digits[i]);
    }
    s
}

/// Reads a 32-bit number from the characters `v[from..to]`: an optional plus
/// sign, then digits. `None` where they denote no number or one too large.
pub fn read_u32(v: &Vec<char>, from: usize, to: usize) -> (r: Option<u32>)
    requires
        from <= to <= v.len(),
    ensures
        r == parse_u32(v@.subrange(from as int, to as int)),
{
    let ghost s = v@.subrange(from as int, to as int);
    let start = if from < to && v[from] == '+' {
        from + 1
    } else {
        from
    };
    let ghost body = unsigned_part(s);
    if start == to {
        return None;
    }
    let mut acc: u64 = 0;
    let mut i: usize = start;
    while i < to
        invariant
            start <= i <= to <= v.len(),
            body == v@.subrange(start as int, to as int),
            s == v@.subrange(from as int, to as int),
            body == unsigned_part(s),
            body.len() > 0,
            all_digits(body.take(i - start)),
            acc == digits_value(body.take(i - start)),
            acc <= u32::MAX,
        decreases to - i,
    {
        let c = v[i];
        if !('0' <= c && c <= '9') {
            assert(!is_digit(body[i - start]));
            return None;
        }
        let d = (c as u32 - 48) as u64;
        let next = acc * 10 + d;
        proof {
            let t = body.take(i + 1 - start);
            assert(t.drop_last() =~= body.take(i - start));
            if next > u32::MAX {
                if all_digits(body) {
                    lemma_digits_value_grows(body, i + 1 - start);
                }
            }
        }
        if next > 0xffff_ffff {
            return None;
        }
        acc = next;
        i += 1;
    }
    assert(body.take(to - start) =~= body);
    Some(acc as u32)
}

} // verus!
