//! How the time of an event is shown.
//!
//! The calendar belongs to the `time` crate; what is decided here is
//! whether the date is shown with the time.
use crate::event::Timestamp;
use vstd::prelude::*;

verus! {

/// The last instant that can be shown: the last whose day lies within
/// the year 100000, where the calendar of the `time` crate ends, at every
/// offset from UTC of less than a day.
pub const LAST_INSTANT: Timestamp = 3_093_559_516_800_999;

/// The seconds of a day.
pub const DAY: u64 = 86_400;

/// The text that `time::OffsetDateTime::format` gives for an instant, given
/// in seconds since the epoch, at an offset from UTC in seconds, and a format.
pub uninterp spec fn formatted_instant(seconds: int, offset: int, format: Seq<char>) -> Seq<char>;

/// The format of a time of day.
pub open spec fn time_format() -> Seq<char> {
    "%T"@
}

/// The format of a date with a time of day.
pub open spec fn date_time_format() -> Seq<char> {
    "%F %T"@
}

/// The day in which an instant falls at an offset from UTC, counted from
/// the day of the epoch.
pub open spec fn local_day(instant: Timestamp, offset: int) -> int {
    (instant / 1000 + offset) / (DAY as int)
}

/// The text under which an instant is shown at a time `now`: the time of
/// day where both fall in the same day at the offset, else the date and
/// the time of day.
pub open spec fn shown_time(instant: Timestamp, now: Timestamp, offset: int) -> Seq<char> {
    if local_day(instant, offset) == local_day(now, offset) {
        formatted_instant(instant as int / 1000, offset, time_format())
    } else {
        formatted_instant(instant as int / 1000, offset, date_time_format())
    }
}

/// Formats an instant with `time::OffsetDateTime::format`, after
/// `from_unix_timestamp` and `to_offset` have made it of the seconds and
/// the offset.
///
/// Trusted: that the text depends on the three arguments alone, which is
/// what `formatted_instant` names. The instant is kept within the years
/// that the crate's calendar holds, and the format to the two that are
/// used, which the crate reads without failing.
#[verifier::external_body]
fn format_instant(seconds: i64, offset: i32, format: &str) -> (text: String)
    requires
        0 <= seconds <= LAST_INSTANT / 1000,
        -(DAY as int) < offset < DAY as int,
        format@ == time_format() || format@ == date_time_format(),
    ensures
        text@ == formatted_instant(seconds as int, offset as int, format@),
{
    time::OffsetDateTime::from_unix_timestamp(seconds).to_offset(
        time::UtcOffset::seconds(offset),
    ).format(format)
}

/// Whether two instants fall in the same day at an offset from UTC.
pub fn same_day(instant: Timestamp, now: Timestamp, offset: i32) -> (same: bool)
    requires
        -(DAY as int) < offset < DAY as int,
    ensures
        same == (local_day(instant, offset as int) == local_day(now, offset as int)),
{
    let shift: u64 = (offset as i64 + DAY as i64) as u64;
    let first: u64 = (instant / 1000 + shift) / DAY;
    let second: u64 = (now / 1000 + shift) / DAY;
    assert(first == local_day(instant, offset as int) + 1) by {
        lemma_day_after(instant as int / 1000 + offset as int);
    }
    assert(second == local_day(now, offset as int) + 1) by {
        lemma_day_after(now as int / 1000 + offset as int);
    }
    first == second
}

/// A day later is the next day.
proof fn lemma_day_after(seconds: int)
    ensures
        (seconds + 86_400) / 86_400 == seconds / 86_400 + 1,
{
    assert((seconds + 86_400) / 86_400 == seconds / 86_400 + 1) by (nonlinear_arith);
}

/// The text under which the time of an event is shown: the time of day
/// where the event is of today, else the date and the time of day.
pub fn format_systime(instant: Timestamp, now: Timestamp, offset: i32) -> (text: String)
    requires
        instant <= LAST_INSTANT,
        -(DAY as int) < offset < DAY as int,
    ensures
        text@ == shown_time(instant, now, offset as int),
{
    let seconds: i64 = (instant / 1000) as i64;
    if same_day(instant, now, offset) {
        format_instant(seconds, offset, "%T")
    } else {
        format_instant(seconds, offset, "%F %T")
    }
}

} // verus!
