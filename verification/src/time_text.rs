//! Times as text. The texts come from the `chrono` and `chrono-humanize`
//! crates, the time of the call from the clock of the machine; what is
//! decided here is which text a time gets.

use vstd::prelude::*;
use chrono::{DateTime, Utc};
use chrono_humanize::HumanTime;
use std::time::{SystemTime, UNIX_EPOCH};

verus! {

/// How a time is written.
#[derive(Clone, Copy, Debug, PartialEq, Eq, Structural)]
pub enum TimestampFormat {
    /// As the distance from now, in words.
    Relative,
    /// As date and time in the time zone of the machine, in the words
    /// that the program around the library has for it.
    Local,
    /// As date and time in UTC.
    Utc,
}

/// The largest number of seconds, in either direction, that the distance
/// between two times is given as.
pub const MAX_DISTANCE: i64 = 9_223_372_036_854_775;

/// The words that `chrono-humanize` has for a distance in time of so many
/// seconds, negative for the past.
pub uninterp spec fn human_time(seconds: i64) -> Seq<char>;

/// The text that `chrono` has for the time so many seconds after the epoch
/// in UTC, where it can represent that time.
pub uninterp spec fn utc_text(seconds: i64) -> Option<Seq<char>>;

/// Words for a distance in time.
///
/// Trusted: `Duration::seconds` of `chrono`, which panics outside the range
/// that `requires` admits, and `HumanTime::from` with `to_string` of
/// `chrono-humanize`. The claim is only that the words are a function of
/// the number of seconds, named `human_time`.
#[verifier::external_body]
fn humanize(seconds: i64) -> (text: String)
    requires
        -MAX_DISTANCE <= seconds <= MAX_DISTANCE,
    ensures
        text@ == human_time(seconds),
{
    HumanTime::from(chrono::Duration::seconds(seconds)).to_string()
}

/// Date and time in UTC.
///
/// Trusted: `DateTime::from_timestamp` of `chrono`, with `to_string`. The
/// claim is only that the text, and whether there is one, is a function of
/// the number of seconds, named `utc_text`.
#[verifier::external_body]
fn utc_time(seconds: i64) -> (text: Option<String>)
    ensures
        match text {
            Some(t) => utc_text(seconds) == Some(t@),
            None => utc_text(seconds) is None,
        },
{
    DateTime::<Utc>::from_timestamp(seconds, 0).map(|time| time.to_string())
}

/// What the clock of the machine shows: the whole seconds since the epoch
/// in `Ok`, or, where the clock stands before the epoch, the whole seconds
/// up to the epoch in `Err`.
///
/// Trusted: `SystemTime::now` and `SystemTime::duration_since` of std, with
/// `Duration::as_secs` on either outcome. Nothing is claimed of the
/// reading.
#[verifier::external_body]
fn read_clock() -> (reading: Result<u64, u64>) {
    match SystemTime::now().duration_since(UNIX_EPOCH) {
        Ok(after) => Ok(after.as_secs()),
        Err(before) => Err(before.duration().as_secs()),
    }
}

/// The time that a reading of the clock stands for, in seconds since the
/// epoch: negative for a clock that stands before the epoch, and held at
/// the largest number of seconds in either direction.
pub open spec fn clock_time(reading: Result<u64, u64>) -> i64 {
    match reading {
        Ok(after) => if after > i64::MAX {
            i64::MAX
        } else {
            after as i64
        },
        Err(before) => if before > i64::MAX {
            (-i64::MAX) as i64
        } else {
            (-before) as i64
        },
    }
}

/// The time that a reading of the clock stands for, in seconds since the
/// epoch.
pub fn time_of_reading(reading: Result<u64, u64>) -> (seconds: i64)
    ensures
        seconds == clock_time(reading),
{
    match reading {
        Ok(after) => if after > i64::MAX as u64 {
            i64::MAX
        } else {
            after as i64
        },
        Err(before) => if before > i64::MAX as u64 {
            -i64::MAX
        } else {
            -(before as i64)
        },
    }
}

/// The time of the call, in seconds since the epoch, as the clock of the
/// machine has it.
pub(crate) fn current_time() -> (seconds: i64) {
    time_of_reading(read_clock())
}

/// The distance from `now` to `timestamp` in seconds, negative for the
/// past, held within `MAX_DISTANCE` in either direction.
pub open spec fn distance(timestamp: i64, now: i64) -> i64 {
    let d = timestamp - now;
    if d > MAX_DISTANCE {
        MAX_DISTANCE
    } else if d < -MAX_DISTANCE {
        (-MAX_DISTANCE) as i64
    } else {
        d as i64
    }
}

/// The distance from `now` to `timestamp`, in words.
pub fn relative_time(timestamp: i64, now: i64) -> (text: String)
    ensures
        text@ == human_time(distance(timestamp, now)),
{
    let d: i128 = timestamp as i128 - now as i128;
    let held: i64 = if d > MAX_DISTANCE as i128 {
        MAX_DISTANCE
    } else if d < -(MAX_DISTANCE as i128) {
        -MAX_DISTANCE
    } else {
        d as i64
    };
    humanize(held)
}

/// The text that a table of times has for a time: that of the first entry
/// for the time, and no text where there is none.
pub open spec fn local_text(table: Seq<(i64, Seq<char>)>, timestamp: i64) -> Seq<char>
    decreases table.len(),
{
    if table.len() == 0 {
        Seq::empty()
    } else if table[0].0 == timestamp {
        table[0].1
    } else {
        local_text(table.skip(1), timestamp)
    }
}

/// A table of times and their texts as mathematical values.
pub open spec fn table_view(table: Seq<(i64, String)>) -> Seq<(i64, Seq<char>)> {
    table.map_values(|entry: (i64, String)| (entry.0, entry.1@))
}

/// The text that a table of times has for a time.
pub fn find_local_time(table: &Vec<(i64, String)>, timestamp: i64) -> (text: String)
    ensures
        text@ == local_text(table_view(table@), timestamp),
{
    let ghost all = table_view(table@);
    let mut i: usize = 0;
    assert(all.skip(0) =~= all);
    while i < table.len()
        invariant
            i <= table.len(),
            all == table_view(table@),
            local_text(all, timestamp) == local_text(all.skip(i as int), timestamp),
        decreases table.len() - i,
    {
        if table[i].0 == timestamp {
            assert(all.skip(i as int)[0] == all[i as int]);
            return table[i].1.clone();
        }
        assert(all.skip(i as int)[0] == all[i as int]);
        assert(all.skip(i as int).skip(1) =~= all.skip(i + 1));
        i += 1;
    }
    String::new()
}

/// The text of a time: in words with `Relative`, as the distance from
/// `now`; as date and time in UTC with `Utc`, empty for a time that cannot
/// be represented; and with `Local` the text that the table of `local`
/// times has for it. The time zone of the machine is not asked here: the
/// program around the library writes the times in that zone into the table.
pub open spec fn time_text(
    format: TimestampFormat,
    timestamp: i64,
    now: i64,
    local: Seq<(i64, Seq<char>)>,
) -> Seq<char> {
    match format {
        TimestampFormat::Relative => human_time(distance(timestamp, now)),
        TimestampFormat::Local => local_text(local, timestamp),
        TimestampFormat::Utc => match utc_text(timestamp) {
            Some(t) => t,
            None => Seq::empty(),
        },
    }
}

/// The text of a time in the given format, for a reader at the time `now`.
pub fn format_time(format: TimestampFormat, timestamp: i64, now: i64, local: &Vec<(i64, String)>) -> (text:
    String)
    ensures
        text@ == time_text(format, timestamp, now, table_view(local@)),
{
    match format {
        TimestampFormat::Relative => relative_time(timestamp, now),
        TimestampFormat::Local => find_local_time(local, timestamp),
        TimestampFormat::Utc => match utc_time(timestamp) {
            Some(t) => t,
            None => String::new(),
        },
    }
}

} // verus!
