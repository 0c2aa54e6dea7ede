//! What the protocol server shows of times.

use vstd::prelude::*;
use vstd::string::StringExecFns;
use crate::clock::now_seconds;
use crate::storage::shapes::opt_str_view;
use crate::text::{decimal_digits, decimal_text, opt_view};

verus! {

/// A count with its unit, followed by `ago`: the unit takes an `s` unless
/// the count is one.
pub open spec fn counted(count: u64, unit: Seq<char>) -> Seq<char> {
    decimal_digits(count as nat) + " "@ + unit + (if count == 1 {
        Seq::empty()
    } else {
        "s"@
    }) + " ago"@
}

/// How long ago a time was, for a time that lies less than a week back:
/// `just now` within a minute, then whole minutes, hours or days.
pub open spec fn relative_time(seconds: int) -> Option<Seq<char>> {
    if seconds < 0 {
        None
    } else if seconds < 60 {
        Some("just now"@)
    } else if seconds < 3600 {
        Some(counted((seconds / 60) as u64, "minute"@))
    } else if seconds < 86400 {
        Some(counted((seconds / 3600) as u64, "hour"@))
    } else if seconds < 604800 {
        Some(counted((seconds / 86400) as u64, "day"@))
    } else {
        None
    }
}

/// A number of seconds since the epoch as a signed number: one above the
/// largest signed number stands for a time before the epoch.
pub open spec fn seconds_of(timestamp: u64) -> i64 {
    if timestamp <= i64::MAX as u64 {
        timestamp as i64
    } else {
        (timestamp - 0x1_0000_0000_0000_0000) as i64
    }
}

/// What is shown for a time at the moment `now`, both in seconds since the
/// epoch. `date` is the time's calendar date, where the calendar reaches
/// it. A time out of the calendar's reach counts as now. A time that lies
/// a week or more back, or ahead, is shown as its date.
pub open spec fn shown_time(now: i64, timestamp: u64, date: Option<Seq<char>>) -> Seq<char> {
    match date {
        None => "just now"@,
        Some(d) => match relative_time(now - seconds_of(timestamp)) {
            Some(text) => text,
            None => d,
        },
    }
}

/// The calendar date, as year, month and day, of a time in seconds since
/// the epoch, where the calendar reaches it.
pub uninterp spec fn calendar_date(seconds: i64) -> Option<Seq<char>>;

/// The date of a time, made by `chrono::DateTime::from_timestamp` and
/// written by `DateTime::format` with the pattern `%Y-%m-%d`. The claim is
/// that the outcome depends on the number of seconds alone; it is `None`
/// where `from_timestamp` finds the time out of the calendar's reach.
#[verifier::external_body]
fn date_text(seconds: i64) -> (r: Option<String>)
    ensures
        opt_view(r) == calendar_date(seconds),
{
    match chrono::DateTime::from_timestamp(seconds, 0) {
        Some(then) => Some(then.format("%Y-%m-%d").to_string()),
        None => None,
    }
}

fn counted_text(count: u64, unit: &str) -> (r: String)
    ensures
        r@ == counted(count, unit@),
{
    let mut out = decimal_text(count);
    out.append(" ");
    out.append(unit);
    if count == 1 {
        proof {
            assert(out@ + Seq::<char>::empty() =~= out@);
        }
    } else {
        out.append("s");
    }
    out.append(" ago");
    out
}

fn signed_seconds(timestamp: u64) -> (r: i64)
    ensures
        r == seconds_of(timestamp),
{
    if timestamp <= 0x7FFF_FFFF_FFFF_FFFF {
        timestamp as i64
    } else {
        let below: u64 = u64::MAX - timestamp;
        -(below as i64) - 1
    }
}

/// Says what is shown for a time at the moment `now`, given the time's date.
pub fn relative_time_text(now: i64, timestamp: u64, date: Option<&str>) -> (r: String)
    ensures
        r@ == shown_time(now, timestamp, opt_str_view(date)),
{
    let shown = match date {
        Some(d) => d,
        None => {
            return "just now".to_owned();
        },
    };
    let then = signed_seconds(timestamp);
    if now < then {
        return shown.to_owned();
    }
    let elapsed: i128 = now as i128 - then as i128;
    if elapsed < 60 {
        "just now".to_owned()
    } else if elapsed < 3600 {
        counted_text((elapsed / 60) as u64, "minute")
    } else if elapsed < 86400 {
        counted_text((elapsed / 3600) as u64, "hour")
    } else if elapsed < 604800 {
        counted_text((elapsed / 86400) as u64, "day")
    } else {
        shown.to_owned()
    }
}

/// Says how long ago a time was: in words for less than a week, else as a
/// date. Whatever the clock says, the text is the one shown at that moment,
/// which does not lie before the epoch.
pub fn format_relative_time(timestamp: u64) -> (r: String)
    ensures
        exists|now: i64|
            now >= 0 && r@ == shown_time(now, timestamp, calendar_date(seconds_of(timestamp))),
{
    let now = now_seconds();
    let date = date_text(signed_seconds(timestamp));
    let r = match &date {
        Some(d) => relative_time_text(now, timestamp, Some(d.as_str())),
        None => relative_time_text(now, timestamp, None),
    };
    proof {
        assert(now >= 0 && r@ == shown_time(
            now,
            timestamp,
            calendar_date(seconds_of(timestamp)),
        ));
    }
    r
}

} // verus!
