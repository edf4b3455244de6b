//! Timestamps as the timeline writes them: beside a message, on hover and
//! on the dividers between days.

use vstd::prelude::*;
use crate::outside::{chrono_strftime, format_local, local_day, local_day_number, TIMESTAMP_BOUND};

verus! {

broadcast use vstd::string::group_string_axioms;

/// How the clock is written.
pub enum HourFormat {
    TwelveHour,
    TwentyFourHour,
}

/// In which order day, month and year are written.
pub enum DateFormat {
    DayMonthYear,
    MonthDayYear,
    YearMonthDay,
}

/// The instant a timestamp in seconds stands for; timestamps beyond the
/// dates `chrono` represents fall back to the epoch.
pub open spec fn instant(ts: u64) -> i64 {
    if ts <= TIMESTAMP_BOUND as u64 {
        ts as i64
    } else {
        0
    }
}

fn instant_of(ts: u64) -> (i: i64)
    ensures
        i == instant(ts),
        -TIMESTAMP_BOUND <= i <= TIMESTAMP_BOUND,
{
    if ts <= TIMESTAMP_BOUND as u64 {
        ts as i64
    } else {
        0
    }
}

pub open spec fn hour_pattern(h: HourFormat) -> Seq<char> {
    match h {
        HourFormat::TwelveHour => "%I:%M %p"@,
        HourFormat::TwentyFourHour => "%H:%M"@,
    }
}

pub open spec fn date_pattern(d: DateFormat) -> Seq<char> {
    match d {
        DateFormat::DayMonthYear => "%d/%m/%Y"@,
        DateFormat::MonthDayYear => "%m/%d/%Y"@,
        DateFormat::YearMonthDay => "%Y/%m/%d"@,
    }
}

/// The pattern of a message's timestamp, by how many local days it lies
/// from today: today and yesterday by name, the rest of the past week with
/// the weekday, anything else by date.
pub open spec fn stamp_pattern(days: int, h: HourFormat, d: DateFormat) -> Seq<char> {
    if days == 0 {
        "Today, "@ + hour_pattern(h)
    } else if days == -1 {
        "Yesterday, "@ + hour_pattern(h)
    } else if -6 <= days < -1 {
        "%a "@ + date_pattern(d) + ", "@ + hour_pattern(h)
    } else {
        date_pattern(d) + ", "@ + hour_pattern(h)
    }
}

fn hour_pattern_string(h: &HourFormat) -> (s: String)
    ensures
        s@ == hour_pattern(*h),
{
    match h {
        HourFormat::TwelveHour => String::from_str("%I:%M %p"),
        HourFormat::TwentyFourHour => String::from_str("%H:%M"),
    }
}

fn date_pattern_string(d: &DateFormat) -> (s: String)
    ensures
        s@ == date_pattern(*d),
{
    match d {
        DateFormat::DayMonthYear => String::from_str("%d/%m/%Y"),
        DateFormat::MonthDayYear => String::from_str("%m/%d/%Y"),
        DateFormat::YearMonthDay => String::from_str("%Y/%m/%d"),
    }
}

/// Builds the pattern of a message's timestamp.
pub fn stamp_pattern_string(days: i64, h: &HourFormat, d: &DateFormat) -> (s: String)
    ensures
        s@ == stamp_pattern(days as int, *h, *d),
{
    let hour = hour_pattern_string(h);
    if days == 0 {
        let mut s = String::from_str("Today, ");
        s.append(hour.as_str());
        s
    } else if days == -1 {
        let mut s = String::from_str("Yesterday, ");
        s.append(hour.as_str());
        s
    } else if -6 <= days && days < -1 {
        let mut s = String::from_str("%a ");
        let date = date_pattern_string(d);
        s.append(date.as_str());
        s.append(", ");
        s.append(hour.as_str());
        s
    } else {
        let mut s = date_pattern_string(d);
        s.append(", ");
        s.append(hour.as_str());
        s
    }
}

/// The number of local days from `now` to `ts`, where the zone is `offset`
/// seconds east of UTC at `ts` and `now_offset` at `now` (the two differ
/// across a change to or from daylight saving time).
pub open spec fn day_distance(ts: u64, now: u64, offset: i32, now_offset: i32) -> int {
    local_day(instant(ts) as int, offset as int) - local_day(instant(now) as int, now_offset as int)
}

/// The timestamp beside a message sent at `ts` (seconds), seen at `now`,
/// in a zone `offset` seconds east of UTC at `ts` and `now_offset` at `now`.
pub fn format_date(ts: u64, now: u64, offset: i32, now_offset: i32, h: &HourFormat, d: &DateFormat) -> (text: Option<String>)
    requires
        -86_400 < offset < 86_400,
        -86_400 < now_offset < 86_400,
        instant(ts) + offset <= TIMESTAMP_BOUND,
        instant(now) + now_offset <= TIMESTAMP_BOUND,
    ensures
        match text {
            Some(t) => chrono_strftime(instant(ts), offset, stamp_pattern(day_distance(ts, now, offset, now_offset), *h, *d))
                == Some(t@),
            None => chrono_strftime(instant(ts), offset, stamp_pattern(day_distance(ts, now, offset, now_offset), *h, *d))
                is None,
        },
{
    let at = instant_of(ts);
    let today = instant_of(now);
    let day = local_day_number(at, offset);
    let now_day = local_day_number(today, now_offset);
    let days: i64 = day as i64 - now_day as i64;
    let pattern = stamp_pattern_string(days, h, d);
    format_local(at, offset, pattern.as_str())
}

/// The time of day beside a message on hover.
pub fn format_time(ts: u64, offset: i32, h: &HourFormat) -> (text: Option<String>)
    requires
        -86_400 < offset < 86_400,
        instant(ts) + offset <= TIMESTAMP_BOUND,
    ensures
        match text {
            Some(t) => chrono_strftime(instant(ts), offset, hour_pattern(*h)) == Some(t@),
            None => chrono_strftime(instant(ts), offset, hour_pattern(*h)) is None,
        },
{
    let at = instant_of(ts);
    let pattern = hour_pattern_string(h);
    format_local(at, offset, pattern.as_str())
}

/// The seconds of a week.
pub const WEEK_SECONDS: i64 = 604_800;

/// What the divider of a day says.
pub enum DividerLabel {
    Today,
    Yesterday,
    /// A date written with the given pattern.
    Dated(Seq<char>),
}

/// The divider of the day of `ts`, seen at `now`: today and yesterday by
/// name, a day of the past week with its weekday before the date, any
/// other day by date alone.
pub open spec fn divider_label(ts: u64, now: u64, offset: i32, now_offset: i32) -> DividerLabel {
    let days = day_distance(ts, now, offset, now_offset);
    if days == 0 {
        DividerLabel::Today
    } else if days == -1 {
        DividerLabel::Yesterday
    } else if instant(ts) > instant(now) - WEEK_SECONDS {
        DividerLabel::Dated("%a %d %B %Y"@)
    } else {
        DividerLabel::Dated("%d %B %Y"@)
    }
}

/// Writes the divider of the day of `ts`, the zone's offsets at `ts` and at
/// `now` given as for `format_date`.
pub fn date_divider(ts: u64, now: u64, offset: i32, now_offset: i32) -> (text: Option<String>)
    requires
        -86_400 < offset < 86_400,
        -86_400 < now_offset < 86_400,
        instant(ts) + offset <= TIMESTAMP_BOUND,
        instant(now) + now_offset <= TIMESTAMP_BOUND,
    ensures
        match divider_label(ts, now, offset, now_offset) {
            DividerLabel::Today => text matches Some(t) && t@ == "Today"@,
            DividerLabel::Yesterday => text matches Some(t) && t@ == "Yesterday"@,
            DividerLabel::Dated(p) => match text {
                Some(t) => chrono_strftime(instant(ts), offset, p) == Some(t@),
                None => chrono_strftime(instant(ts), offset, p) is None,
            },
        },
{
    let at = instant_of(ts);
    let today = instant_of(now);
    let day = local_day_number(at, offset);
    let now_day = local_day_number(today, now_offset);
    let days: i64 = day as i64 - now_day as i64;
    if days == 0 {
        Some(String::from_str("Today"))
    } else if days == -1 {
        Some(String::from_str("Yesterday"))
    } else if at > today - WEEK_SECONDS {
        format_local(at, offset, "%a %d %B %Y")
    } else {
        format_local(at, offset, "%d %B %Y")
    }
}

} // verus!
