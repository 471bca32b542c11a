//! Temporal scalar kinds and their normalization.
//!
//! Dates, times of day, and timestamps are held as plain calendar and clock
//! fields. A zone-carrying value is normalized to UTC — the clock value is
//! shifted by the offset and the offset then discarded — and every kind is
//! rendered as ISO-8601 text: `YYYY-MM-DD` for dates, `HH:MM:SS[.mmm]Z`
//! for times, `YYYY-MM-DDTHH:MM:SS[.mmm]Z` for timestamps, the fractional
//! field present exactly when the value carries a nonzero millisecond part.

use vstd::prelude::*;
use vstd::arithmetic::div_mod::lemma_fundamental_div_mod_converse_div;
use vstd::arithmetic::div_mod::lemma_fundamental_div_mod_converse_mod;
use vstd::arithmetic::div_mod::lemma_mod_multiples_vanish;
use vstd::arithmetic::div_mod::lemma_small_mod;
use crate::ascii::ascii_bytes;
use crate::ascii::ascii_to_string;
use crate::ascii::chars_of;
use crate::ascii::four_digit_bytes;
use crate::ascii::push_four_digits;
use crate::ascii::push_three_digits;
use crate::ascii::push_two_digits;
use crate::ascii::three_digit_bytes;
use crate::ascii::two_digit_bytes;

verus! {

/// A time of day: wall-clock fields plus a millisecond part, `0` meaning
/// the value carries no sub-second precision.
#[derive(Clone, Copy, PartialEq, Eq, Structural, Debug)]
pub struct Time {
    pub hour: u8,
    pub minute: u8,
    pub second: u8,
    pub millis: u16,
}

impl Time {
    pub open spec fn wf(self) -> bool {
        self.hour < 24 && self.minute < 60 && self.second < 60 && self.millis < 1000
    }
}

/// A time of day together with the UTC offset, in minutes, of the zone it
/// was given in.
#[derive(Clone, Copy, PartialEq, Eq, Structural, Debug)]
pub struct TimeWithZone {
    pub time: Time,
    pub offset_minutes: i16,
}

impl TimeWithZone {
    pub open spec fn wf(self) -> bool {
        self.time.wf() && -1440 < self.offset_minutes < 1440
    }
}

/// A calendar date of the proleptic Gregorian calendar, years 1 to 9999.
#[derive(Clone, Copy, PartialEq, Eq, Structural, Debug)]
pub struct Date {
    pub year: u16,
    pub month: u8,
    pub day: u8,
}

/// Whether `year` is a leap year.
pub open spec fn is_leap_year(year: int) -> bool {
    year % 4 == 0 && (year % 100 != 0 || year % 400 == 0)
}

/// The number of days in `month` of `year`.
pub open spec fn days_in_month(year: int, month: int) -> int {
    if month == 2 {
        if is_leap_year(year) {
            29
        } else {
            28
        }
    } else if month == 4 || month == 6 || month == 9 || month == 11 {
        30
    } else {
        31
    }
}

impl Date {
    pub open spec fn wf(self) -> bool {
        &&& 1 <= self.year <= 9999
        &&& 1 <= self.month <= 12
        &&& 1 <= self.day <= days_in_month(self.year as int, self.month as int)
    }

    /// The first representable date.
    pub open spec fn is_first(self) -> bool {
        self.year == 1 && self.month == 1 && self.day == 1
    }

    /// The last representable date.
    pub open spec fn is_last(self) -> bool {
        self.year == 9999 && self.month == 12 && self.day == 31
    }
}

/// A timestamp: a date and a time of day, with no zone.
#[derive(Clone, Copy, PartialEq, Eq, Structural, Debug)]
pub struct Timestamp {
    pub date: Date,
    pub time: Time,
}

impl Timestamp {
    pub open spec fn wf(self) -> bool {
        self.date.wf() && self.time.wf()
    }
}

/// A timestamp together with the UTC offset, in minutes, of the zone it
/// was given in.
#[derive(Clone, Copy, PartialEq, Eq, Structural, Debug)]
pub struct TimestampWithZone {
    pub date: Date,
    pub time: Time,
    pub offset_minutes: i16,
}

impl TimestampWithZone {
    pub open spec fn wf(self) -> bool {
        self.date.wf() && self.time.wf() && -1440 < self.offset_minutes < 1440
    }
}

/// The clock value of `t` in seconds since midnight, sub-second part aside.
pub open spec fn clock_seconds(t: Time) -> int {
    t.hour * 3600 + t.minute * 60 + t.second
}

/// The time of day `s` seconds after midnight, carrying `millis`.
pub open spec fn split_seconds(s: int, millis: u16) -> Time {
    Time {
        hour: (s / 3600) as u8,
        minute: ((s / 60) % 60) as u8,
        second: (s % 60) as u8,
        millis,
    }
}

/// The clock value of `tz` converted to UTC, wrapped within one day.
pub open spec fn utc_clock(t: Time, offset_minutes: int) -> int {
    (clock_seconds(t) - offset_minutes * 60) % 86400
}

/// `tz` normalized to UTC: the clock value shifted by the offset, the
/// offset discarded, the sub-second part kept.
pub open spec fn time_in_utc(tz: TimeWithZone) -> Time {
    split_seconds(utc_clock(tz.time, tz.offset_minutes as int), tz.time.millis)
}

/// The date one day before `d`.
pub open spec fn prev_date(d: Date) -> Date {
    if d.day > 1 {
        Date { year: d.year, month: d.month, day: (d.day - 1) as u8 }
    } else if d.month > 1 {
        Date {
            year: d.year,
            month: (d.month - 1) as u8,
            day: days_in_month(d.year as int, d.month as int - 1) as u8,
        }
    } else {
        Date { year: (d.year - 1) as u16, month: 12, day: 31 }
    }
}

/// The date one day after `d`.
pub open spec fn next_date(d: Date) -> Date {
    if d.day < days_in_month(d.year as int, d.month as int) {
        Date { year: d.year, month: d.month, day: (d.day + 1) as u8 }
    } else if d.month < 12 {
        Date { year: d.year, month: (d.month + 1) as u8, day: 1 }
    } else {
        Date { year: (d.year + 1) as u16, month: 1, day: 1 }
    }
}

/// Whether normalizing `tz` to UTC stays within the representable dates.
pub open spec fn utc_in_range(tz: TimestampWithZone) -> bool {
    let total = clock_seconds(tz.time) - tz.offset_minutes * 60;
    &&& (total < 0 ==> !tz.date.is_first())
    &&& (total >= 86400 ==> !tz.date.is_last())
}

/// `tz` normalized to UTC: the clock value shifted by the offset, borrowing
/// or carrying one calendar day when the shift crosses midnight; the offset
/// discarded, the sub-second part kept.
pub open spec fn ts_in_utc(tz: TimestampWithZone) -> Timestamp {
    let total = clock_seconds(tz.time) - tz.offset_minutes * 60;
    if total < 0 {
        Timestamp { date: prev_date(tz.date), time: split_seconds(total + 86400, tz.time.millis) }
    } else if total >= 86400 {
        Timestamp { date: next_date(tz.date), time: split_seconds(total - 86400, tz.time.millis) }
    } else {
        Timestamp { date: tz.date, time: split_seconds(total, tz.time.millis) }
    }
}

/// The number of days in `month` of `year`.
pub fn month_days(year: u16, month: u8) -> (r: u8)
    requires
        1 <= month <= 12,
    ensures
        r as int == days_in_month(year as int, month as int),
{
    if month == 2 {
        if year % 4 == 0 && (year % 100 != 0 || year % 400 == 0) {
            29
        } else {
            28
        }
    } else if month == 4 || month == 6 || month == 9 || month == 11 {
        30
    } else {
        31
    }
}

/// The date one day before `d`.
pub fn prev_day(d: &Date) -> (r: Date)
    requires
        d.wf(),
        !d.is_first(),
    ensures
        r == prev_date(*d),
        r.wf(),
{
    if d.day > 1 {
        Date { year: d.year, month: d.month, day: d.day - 1 }
    } else if d.month > 1 {
        Date { year: d.year, month: d.month - 1, day: month_days(d.year, d.month - 1) }
    } else {
        Date { year: d.year - 1, month: 12, day: 31 }
    }
}

/// The date one day after `d`.
pub fn next_day(d: &Date) -> (r: Date)
    requires
        d.wf(),
        !d.is_last(),
    ensures
        r == next_date(*d),
        r.wf(),
{
    if d.day < month_days(d.year, d.month) {
        Date { year: d.year, month: d.month, day: d.day + 1 }
    } else if d.month < 12 {
        Date { year: d.year, month: d.month + 1, day: 1 }
    } else {
        Date { year: d.year + 1, month: 1, day: 1 }
    }
}

/// For a shift landing at most one day outside the clock range, wrapping by
/// one day is reduction modulo one day.
proof fn lemma_wrap_day(x: int)
    requires
        -86400 <= x < 172800,
    ensures
        x % 86400 == if x < 0 {
            x + 86400
        } else if x >= 86400 {
            x - 86400
        } else {
            x
        },
{
    if x < 0 {
        lemma_mod_multiples_vanish(1, x, 86400);
        lemma_small_mod((x + 86400) as nat, 86400);
    } else if x >= 86400 {
        lemma_mod_multiples_vanish(1, x - 86400, 86400);
        lemma_small_mod((x - 86400) as nat, 86400);
    } else {
        lemma_small_mod(x as nat, 86400);
    }
}

/// Splits a clock value within one day into its fields.
fn split_clock(s: u32, millis: u16) -> (r: Time)
    requires
        s < 86400,
        millis < 1000,
    ensures
        r == split_seconds(s as int, millis),
        r.wf(),
{
    let hour: u8 = (s / 3600) as u8;
    let minute: u8 = ((s / 60) % 60) as u8;
    let second: u8 = (s % 60) as u8;
    Time { hour, minute, second, millis }
}

/// Normalizes a zoned time of day to UTC: the clock value is shifted by the
/// offset, wrapped within one day, and the offset is discarded.
pub fn to_utc_time(tz: &TimeWithZone) -> (r: Time)
    requires
        tz.wf(),
    ensures
        r == time_in_utc(*tz),
        r.wf(),
{
    let s: i32 = tz.time.hour as i32 * 3600 + tz.time.minute as i32 * 60 + tz.time.second as i32;
    let shifted: i32 = s - tz.offset_minutes as i32 * 60;
    proof {
        lemma_wrap_day(shifted as int);
    }
    let wrapped: u32 = if shifted < 0 {
        (shifted + 86400) as u32
    } else if shifted >= 86400 {
        (shifted - 86400) as u32
    } else {
        shifted as u32
    };
    split_clock(wrapped, tz.time.millis)
}

/// Normalizes a zoned timestamp to UTC: the clock value is shifted by the
/// offset, borrowing or carrying one calendar day when the shift crosses
/// midnight, and the offset is discarded.
pub fn to_utc_timestamp(tz: &TimestampWithZone) -> (r: Timestamp)
    requires
        tz.wf(),
        utc_in_range(*tz),
    ensures
        r == ts_in_utc(*tz),
        r.wf(),
{
    let s: i32 = tz.time.hour as i32 * 3600 + tz.time.minute as i32 * 60 + tz.time.second as i32;
    let total: i32 = s - tz.offset_minutes as i32 * 60;
    if total < 0 {
        let date = prev_day(&Date { year: tz.date.year, month: tz.date.month, day: tz.date.day });
        Timestamp { date, time: split_clock((total + 86400) as u32, tz.time.millis) }
    } else if total >= 86400 {
        let date = next_day(&Date { year: tz.date.year, month: tz.date.month, day: tz.date.day });
        Timestamp { date, time: split_clock((total - 86400) as u32, tz.time.millis) }
    } else {
        Timestamp {
            date: Date { year: tz.date.year, month: tz.date.month, day: tz.date.day },
            time: split_clock(total as u32, tz.time.millis),
        }
    }
}

/// Splitting a clock value recovers exactly the fields it was built from.
pub proof fn lemma_clock_split_roundtrip(t: Time)
    requires
        t.wf(),
    ensures
        split_seconds(clock_seconds(t), t.millis) == t,
{
    let c = clock_seconds(t);
    lemma_fundamental_div_mod_converse_div(c, 3600, t.hour as int, t.minute * 60 + t.second);
    lemma_fundamental_div_mod_converse_div(c, 60, t.hour * 60 + t.minute, t.second as int);
    lemma_fundamental_div_mod_converse_mod(c, 60, t.hour * 60 + t.minute, t.second as int);
    lemma_fundamental_div_mod_converse_mod(
        t.hour * 60 + t.minute,
        60,
        t.hour as int,
        t.minute as int,
    );
}

/// A zone offset of zero changes nothing: normalizing such a value to UTC
/// only discards the offset and keeps the clock value.
pub proof fn lemma_zero_offset_identity(tz: TimeWithZone)
    requires
        tz.wf(),
        tz.offset_minutes == 0,
    ensures
        time_in_utc(tz) == tz.time,
{
    lemma_small_mod(clock_seconds(tz.time) as nat, 86400);
    lemma_clock_split_roundtrip(tz.time);
}

/// Stepping one day forward and then back returns to the same date, and
/// stepping forward preserves well-formedness.
pub proof fn lemma_day_step_inverse(d: Date)
    requires
        d.wf(),
        !d.is_last(),
    ensures
        next_date(d).wf(),
        prev_date(next_date(d)) == d,
{
}

/// Stepping one day back and then forward returns to the same date, and
/// stepping back preserves well-formedness.
pub proof fn lemma_day_step_inverse_back(d: Date)
    requires
        d.wf(),
        !d.is_first(),
    ensures
        prev_date(d).wf(),
        next_date(prev_date(d)) == d,
{
}

/// The ISO-8601 rendering of a date, `YYYY-MM-DD`.
pub open spec fn date_bytes(d: Date) -> Seq<u8> {
    four_digit_bytes(d.year as int) + seq![45u8] + two_digit_bytes(d.month as int) + seq![45u8]
        + two_digit_bytes(d.day as int)
}

/// The ISO-8601 rendering of a UTC time of day, `HH:MM:SS[.mmm]Z`, the
/// fractional field present exactly when the millisecond part is nonzero.
pub open spec fn time_bytes(t: Time) -> Seq<u8> {
    two_digit_bytes(t.hour as int) + seq![58u8] + two_digit_bytes(t.minute as int) + seq![58u8]
        + two_digit_bytes(t.second as int) + (if t.millis != 0 {
        seq![46u8] + three_digit_bytes(t.millis as int)
    } else {
        Seq::<u8>::empty()
    }) + seq![90u8]
}

/// The ISO-8601 rendering of a UTC timestamp, `YYYY-MM-DDTHH:MM:SS[.mmm]Z`.
pub open spec fn timestamp_bytes(ts: Timestamp) -> Seq<u8> {
    date_bytes(ts.date) + seq![84u8] + time_bytes(ts.time)
}

/// Appends the date rendering.
fn push_date(out: &mut Vec<u8>, d: &Date)
    requires
        d.wf(),
    ensures
        final(out)@ == old(out)@ + date_bytes(*d),
        ascii_bytes(old(out)@) ==> ascii_bytes(final(out)@),
{
    push_four_digits(out, d.year);
    out.push(45);  // '-'
    push_two_digits(out, d.month);
    out.push(45);  // '-'
    push_two_digits(out, d.day);
    proof {
        assert(out@ =~= old(out)@ + date_bytes(*d));
    }
}

/// Appends the time rendering.
fn push_time(out: &mut Vec<u8>, t: &Time)
    requires
        t.wf(),
    ensures
        final(out)@ == old(out)@ + time_bytes(*t),
        ascii_bytes(old(out)@) ==> ascii_bytes(final(out)@),
{
    push_two_digits(out, t.hour);
    out.push(58);  // ':'
    push_two_digits(out, t.minute);
    out.push(58);  // ':'
    push_two_digits(out, t.second);
    if t.millis != 0 {
        out.push(46);  // '.'
        push_three_digits(out, t.millis);
    }
    out.push(90);  // 'Z'
    proof {
        assert(out@ =~= old(out)@ + time_bytes(*t));
    }
}

/// Renders a date as ISO-8601 text, `YYYY-MM-DD`, with no time component.
pub fn format_date(d: &Date) -> (r: String)
    requires
        d.wf(),
    ensures
        r@ == chars_of(date_bytes(*d)),
{
    let mut out: Vec<u8> = Vec::new();
    push_date(&mut out, d);
    ascii_to_string(out)
}

/// Renders a UTC time of day as `HH:MM:SS[.mmm]Z`.
pub fn format_time(t: &Time) -> (r: String)
    requires
        t.wf(),
    ensures
        r@ == chars_of(time_bytes(*t)),
{
    let mut out: Vec<u8> = Vec::new();
    push_time(&mut out, t);
    ascii_to_string(out)
}

/// Renders a UTC timestamp as `YYYY-MM-DDTHH:MM:SS[.mmm]Z`.
pub fn format_timestamp(ts: &Timestamp) -> (r: String)
    requires
        ts.wf(),
    ensures
        r@ == chars_of(timestamp_bytes(*ts)),
{
    let mut out: Vec<u8> = Vec::new();
    push_date(&mut out, &ts.date);
    out.push(84);  // 'T'
    push_time(&mut out, &ts.time);
    proof {
        assert(out@ =~= date_bytes(ts.date) + seq![84u8] + time_bytes(ts.time));
    }
    ascii_to_string(out)
}

} // verus!
