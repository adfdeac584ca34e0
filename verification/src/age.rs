//! How long ago something happened, in the largest unit that has passed in full.

use vstd::prelude::*;
use crate::text::{decimal, decimal_string, noun, noun_for};

verus! {

pub const SECONDS_PER_MINUTE: u64 = 60;

pub const SECONDS_PER_HOUR: u64 = 3_600;

pub const SECONDS_PER_DAY: u64 = 86_400;

pub const SECONDS_PER_WEEK: u64 = 604_800;

/// A count with its unit, as in "3 days ago".
pub open spec fn ago(count: int, one: Seq<char>, many: Seq<char>) -> Seq<char> {
    decimal(count as nat) + " "@ + noun_for(count, one, many) + " ago"@
}

/// The age that is shown for a number of elapsed seconds: the whole weeks, if
/// there is at least one; else the whole days, hours, minutes or seconds, in that
/// order; and nothing where no time has passed.
pub open spec fn time_offset(elapsed: int) -> Seq<char> {
    if elapsed / 604_800 > 0 {
        ago(elapsed / 604_800, "week"@, "weeks"@)
    } else if elapsed / 86_400 > 0 {
        ago(elapsed / 86_400, "day"@, "days"@)
    } else if elapsed / 3_600 > 0 {
        ago(elapsed / 3_600, "hour"@, "hours"@)
    } else if elapsed / 60 > 0 {
        ago(elapsed / 60, "minute"@, "minutes"@)
    } else if elapsed > 0 {
        ago(elapsed, "second"@, "seconds"@)
    } else {
        Seq::empty()
    }
}

fn ago_string(count: u64, one: &str, many: &str) -> (s: String)
    ensures
        s@ == ago(count as int, one@, many@),
{
    let mut s = decimal_string(count);
    s.append(" ");
    s.append(noun(count, one, many));
    s.append(" ago");
    s
}

/// The seconds from `post_time` to `current_time`, where that is more than none.
fn elapsed_seconds(current_time: i64, post_time: i64) -> (elapsed: u64)
    ensures
        current_time > post_time ==> elapsed == current_time - post_time,
        current_time <= post_time ==> elapsed == 0,
{
    if current_time <= post_time {
        0
    } else {
        let diff: i128 = current_time as i128 - post_time as i128;
        diff as u64
    }
}

/// The age of something created at `post_time`, seen at `current_time`; both are
/// Unix timestamps. Empty where `post_time` is not in the past.
pub fn get_time_offset(current_time: i64, post_time: i64) -> (s: String)
    ensures
        s@ == time_offset(current_time - post_time),
{
    let elapsed = elapsed_seconds(current_time, post_time);
    let weeks = elapsed / SECONDS_PER_WEEK;
    if weeks > 0 {
        return ago_string(weeks, "week", "weeks");
    }
    let days = elapsed / SECONDS_PER_DAY;
    if days > 0 {
        return ago_string(days, "day", "days");
    }
    let hours = elapsed / SECONDS_PER_HOUR;
    if hours > 0 {
        return ago_string(hours, "hour", "hours");
    }
    let minutes = elapsed / SECONDS_PER_MINUTE;
    if minutes > 0 {
        return ago_string(minutes, "minute", "minutes");
    }
    if elapsed > 0 {
        return ago_string(elapsed, "second", "seconds");
    }
    String::new()
}

} // verus!
