use searchbridge::temporal::{
    format_date, format_time, format_timestamp, month_days, next_day, prev_day, to_utc_time,
    to_utc_timestamp, Date, Time, TimeWithZone, Timestamp, TimestampWithZone,
};

fn time(hour: u8, minute: u8, second: u8, millis: u16) -> Time {
    Time { hour, minute, second, millis }
}

fn date(year: u16, month: u8, day: u8) -> Date {
    Date { year, month, day }
}

#[test]
fn date_renders_iso_with_no_time_component() {
    assert_eq!(format_date(&date(2020, 1, 1)), "2020-01-01");
    assert_eq!(format_date(&date(987, 11, 30)), "0987-11-30");
}

#[test]
fn time_renders_with_utc_marker() {
    assert_eq!(format_time(&time(13, 15, 35, 0)), "13:15:35Z");
    assert_eq!(format_time(&time(12, 59, 35, 0)), "12:59:35Z");
}

#[test]
fn time_fraction_present_exactly_when_nonzero() {
    assert_eq!(format_time(&time(12, 59, 35, 567)), "12:59:35.567Z");
    assert_eq!(format_time(&time(0, 0, 0, 7)), "00:00:00.007Z");
    assert_eq!(format_time(&time(0, 0, 0, 0)), "00:00:00Z");
}

#[test]
fn timestamp_renders_date_and_time() {
    assert_eq!(
        format_timestamp(&Timestamp { date: date(2012, 12, 12), time: time(13, 15, 35, 0) }),
        "2012-12-12T13:15:35Z"
    );
    assert_eq!(
        format_timestamp(&Timestamp { date: date(2019, 9, 15), time: time(12, 59, 35, 567) }),
        "2019-09-15T12:59:35.567Z"
    );
}

#[test]
fn zoned_time_normalizes_clock_to_utc_and_discards_offset() {
    // 13:15:35 at +09:00 is 04:15:35 UTC.
    let t = to_utc_time(&TimeWithZone { time: time(13, 15, 35, 0), offset_minutes: 9 * 60 });
    assert_eq!(format_time(&t), "04:15:35Z");
    // 12:59:35 at +08:30 is 04:29:35 UTC.
    let t = to_utc_time(&TimeWithZone { time: time(12, 59, 35, 0), offset_minutes: 8 * 60 + 30 });
    assert_eq!(format_time(&t), "04:29:35Z");
}

#[test]
fn zoned_time_wraps_within_one_day_and_keeps_millis() {
    // 12:59:35.567 at -12:00 is 00:59:35.567 UTC the next day; only the
    // clock value remains.
    let t = to_utc_time(&TimeWithZone { time: time(12, 59, 35, 567), offset_minutes: -12 * 60 });
    assert_eq!(format_time(&t), "00:59:35.567Z");
    // 00:30:00 at +01:00 wraps back below midnight.
    let t = to_utc_time(&TimeWithZone { time: time(0, 30, 0, 0), offset_minutes: 60 });
    assert_eq!(format_time(&t), "23:30:00Z");
}

#[test]
fn zoned_timestamp_normalizes_to_utc() {
    // 13:15:35 at -07:00 is 20:15:35 UTC, same day.
    let ts = to_utc_timestamp(&TimestampWithZone {
        date: date(2012, 12, 12),
        time: time(13, 15, 35, 0),
        offset_minutes: -7 * 60,
    });
    assert_eq!(format_timestamp(&ts), "2012-12-12T20:15:35Z");
}

#[test]
fn zoned_timestamp_carries_into_next_day_and_year() {
    let ts = to_utc_timestamp(&TimestampWithZone {
        date: date(2012, 12, 31),
        time: time(18, 0, 0, 0),
        offset_minutes: -7 * 60,
    });
    assert_eq!(format_timestamp(&ts), "2013-01-01T01:00:00Z");
}

#[test]
fn zoned_timestamp_borrows_from_previous_day_across_leap_day() {
    let ts = to_utc_timestamp(&TimestampWithZone {
        date: date(2020, 3, 1),
        time: time(0, 30, 0, 0),
        offset_minutes: 60,
    });
    assert_eq!(format_timestamp(&ts), "2020-02-29T23:30:00Z");
}

#[test]
fn month_lengths_follow_the_gregorian_rules() {
    assert_eq!(month_days(2020, 2), 29);
    assert_eq!(month_days(2019, 2), 28);
    assert_eq!(month_days(1900, 2), 28);
    assert_eq!(month_days(2000, 2), 29);
    assert_eq!(month_days(2021, 4), 30);
    assert_eq!(month_days(2021, 12), 31);
}

#[test]
fn day_stepping_rolls_over_month_and_year_boundaries() {
    assert_eq!(next_day(&date(2020, 2, 28)), date(2020, 2, 29));
    assert_eq!(next_day(&date(2019, 2, 28)), date(2019, 3, 1));
    assert_eq!(next_day(&date(2021, 12, 31)), date(2022, 1, 1));
    assert_eq!(prev_day(&date(2020, 3, 1)), date(2020, 2, 29));
    assert_eq!(prev_day(&date(2022, 1, 1)), date(2021, 12, 31));
    assert_eq!(prev_day(&date(2021, 7, 15)), date(2021, 7, 14));
}
