//! Real-time clock: decoding the CMOS registers, and formatting dates and times.

use vstd::prelude::*;
use crate::fmt::digit;

verus! {

/// CMOS register of the seconds.
pub const RTC_SECONDS: u8 = 0x00;
/// CMOS register of the minutes.
pub const RTC_MINUTES: u8 = 0x02;
/// CMOS register of the hours.
pub const RTC_HOURS: u8 = 0x04;
/// CMOS register of the day of the month.
pub const RTC_DAY: u8 = 0x07;
/// CMOS register of the month.
pub const RTC_MONTH: u8 = 0x08;
/// CMOS register of the year within the century.
pub const RTC_YEAR: u8 = 0x09;
/// CMOS status register A (bit 7: update in progress).
pub const RTC_STATUS_A: u8 = 0x0A;
/// CMOS status register B (bit 1: 24-hour mode, bit 2: binary mode).
pub const RTC_STATUS_B: u8 = 0x0B;

/// A date and time.
#[derive(Debug, Clone, Copy)]
pub struct DateTime {
    pub second: u8,
    pub minute: u8,
    pub hour: u8,
    pub day: u8,
    pub month: u8,
    pub year: u16,
}

/// "YYYY-MM-DD": four year digits, and the tens and ones of the month and day.
pub open spec fn date_bytes(d: DateTime) -> Seq<u8> {
    seq![
        digit(((d.year / 1000) % 10) as int),
        digit(((d.year / 100) % 10) as int),
        digit(((d.year / 10) % 10) as int),
        digit((d.year % 10) as int),
        45u8,
        (48 + d.month / 10) as u8,
        (48 + d.month % 10) as u8,
        45u8,
        (48 + d.day / 10) as u8,
        (48 + d.day % 10) as u8,
    ]
}

/// "HH:MM:SS": the tens and ones of the hour, minute and second.
pub open spec fn time_bytes(d: DateTime) -> Seq<u8> {
    seq![
        (48 + d.hour / 10) as u8,
        (48 + d.hour % 10) as u8,
        58u8,
        (48 + d.minute / 10) as u8,
        (48 + d.minute % 10) as u8,
        58u8,
        (48 + d.second / 10) as u8,
        (48 + d.second % 10) as u8,
    ]
}

impl DateTime {
    /// The date as "YYYY-MM-DD".
    pub fn format_date(&self) -> (buf: [u8; 10])
        ensures
            buf@ == date_bytes(*self),
    {
        let mut buf = [0u8; 10];
        buf[0] = 48 + ((self.year / 1000) % 10) as u8;
        buf[1] = 48 + ((self.year / 100) % 10) as u8;
        buf[2] = 48 + ((self.year / 10) % 10) as u8;
        buf[3] = 48 + (self.year % 10) as u8;
        buf[4] = 45;
        buf[5] = 48 + (self.month / 10);
        buf[6] = 48 + (self.month % 10);
        buf[7] = 45;
        buf[8] = 48 + (self.day / 10);
        buf[9] = 48 + (self.day % 10);
        assert(buf@ =~= date_bytes(*self));
        buf
    }

    /// The time as "HH:MM:SS".
    pub fn format_time(&self) -> (buf: [u8; 8])
        ensures
            buf@ == time_bytes(*self),
    {
        let mut buf = [0u8; 8];
        buf[0] = 48 + (self.hour / 10);
        buf[1] = 48 + (self.hour % 10);
        buf[2] = 58;
        buf[3] = 48 + (self.minute / 10);
        buf[4] = 48 + (self.minute % 10);
        buf[5] = 58;
        buf[6] = 48 + (self.second / 10);
        buf[7] = 48 + (self.second % 10);
        assert(buf@ =~= time_bytes(*self));
        buf
    }
}

/// The value of a binary-coded decimal byte: tens in the high nibble, ones in the low.
pub open spec fn bcd_value(bcd: u8) -> u8 {
    ((bcd / 16) * 10 + bcd % 16) as u8
}

/// Convert a binary-coded decimal byte to its value.
pub fn bcd_to_binary(bcd: u8) -> (v: u8)
    ensures
        v == bcd_value(bcd),
{
    assert((bcd >> 4) == bcd / 16 && (bcd & 0x0F) == bcd % 16) by (bit_vector);
    ((bcd >> 4) * 10) + (bcd & 0x0F)
}

/// The register values as read: in BCD unless status B has bit 2 set.
pub open spec fn rtc_value(raw: u8, status_b: u8) -> u8 {
    if status_b & 0x04 != 0 { raw } else { bcd_value(raw) }
}

/// The hour: in 12-hour mode (status B bit 1 clear) bit 7 marks PM, and the hour is
/// moved to 24-hour form.
pub open spec fn rtc_hour(raw: u8, status_b: u8) -> u8 {
    let h = rtc_value(raw, status_b);
    if status_b & 0x02 == 0 && h & 0x80 != 0 { (((h & 0x7F) + 12) % 24) as u8 } else { h }
}

/// The date and time that the CMOS registers hold, read with status register B; the
/// year is taken in the 21st century.
pub fn decode_rtc(second: u8, minute: u8, hour: u8, day: u8, month: u8, year: u8, status_b: u8) -> (d: DateTime)
    ensures
        d.second == rtc_value(second, status_b),
        d.minute == rtc_value(minute, status_b),
        d.hour == rtc_hour(hour, status_b),
        d.day == rtc_value(day, status_b),
        d.month == rtc_value(month, status_b),
        d.year == 2000 + rtc_value(year, status_b),
{
    let mut second = second;
    let mut minute = minute;
    let mut hour = hour;
    let mut day = day;
    let mut month = month;
    let mut year = year;
    let is_24_hour = (status_b & 0x02) != 0;
    let is_binary = (status_b & 0x04) != 0;
    if !is_binary {
        second = bcd_to_binary(second);
        minute = bcd_to_binary(minute);
        hour = bcd_to_binary(hour);
        day = bcd_to_binary(day);
        month = bcd_to_binary(month);
        year = bcd_to_binary(year);
    }
    if !is_24_hour && (hour & 0x80) != 0 {
        assert(hour & 0x7F <= 0x7F) by (bit_vector);
        hour = ((hour & 0x7F) + 12) % 24;
    }
    let full_year: u16 = 2000 + year as u16;
    DateTime { second, minute, hour, day, month, year: full_year }
}

/// The weekday number of a date, Monday 0 to Sunday 6, by Zeller's congruence for the
/// Gregorian calendar: January and February count as months 13 and 14 of the year
/// before. 400 years, a whole number of weeks, are added to the year so that every
/// term is non-negative.
pub open spec fn weekday(year: u16, month: u8, day: u8) -> int {
    let m: int = if month < 3 { month + 12 } else { month as int };
    let y: int = if month < 3 { year + 399 } else { year + 400 };
    let k = y % 100;
    let j = y / 100;
    let h = (day + (13 * (m + 1)) / 5 + k + k / 4 + j / 4 + 5 * j) % 7;
    (h + 5) % 7
}

/// The English name of weekday number `n`, "Unknown" outside 0..7.
pub open spec fn weekday_name(n: int) -> Seq<char> {
    if n == 0 {
        "Monday"@
    } else if n == 1 {
        "Tuesday"@
    } else if n == 2 {
        "Wednesday"@
    } else if n == 3 {
        "Thursday"@
    } else if n == 4 {
        "Friday"@
    } else if n == 5 {
        "Saturday"@
    } else if n == 6 {
        "Sunday"@
    } else {
        "Unknown"@
    }
}

/// The name of the day of the week of a date, by Zeller's congruence.
pub fn day_of_week_name(year: u16, month: u8, day: u8) -> (name: &'static str)
    ensures
        0 <= weekday(year, month, day) < 7,
        name@ == weekday_name(weekday(year, month, day)),
{
    let m: u32 = if month < 3 { month as u32 + 12 } else { month as u32 };
    let y: u32 = if month < 3 { year as u32 + 399 } else { year as u32 + 400 };
    let k = y % 100;
    let j = y / 100;
    let h = (day as u32 + (13 * (m + 1)) / 5 + k + k / 4 + j / 4 + 5 * j) % 7;
    let dow = (h + 5) % 7;
    if dow == 0 {
        "Monday"
    } else if dow == 1 {
        "Tuesday"
    } else if dow == 2 {
        "Wednesday"
    } else if dow == 3 {
        "Thursday"
    } else if dow == 4 {
        "Friday"
    } else if dow == 5 {
        "Saturday"
    } else {
        "Sunday"
    }
}

/// The English name of month `month` (1 to 12), "Unknown" otherwise.
pub open spec fn month_title(month: u8) -> Seq<char> {
    if month == 1 {
        "January"@
    } else if month == 2 {
        "February"@
    } else if month == 3 {
        "March"@
    } else if month == 4 {
        "April"@
    } else if month == 5 {
        "May"@
    } else if month == 6 {
        "June"@
    } else if month == 7 {
        "July"@
    } else if month == 8 {
        "August"@
    } else if month == 9 {
        "September"@
    } else if month == 10 {
        "October"@
    } else if month == 11 {
        "November"@
    } else if month == 12 {
        "December"@
    } else {
        "Unknown"@
    }
}

/// The name of a month.
pub fn month_name(month: u8) -> (name: &'static str)
    ensures
        name@ == month_title(month),
{
    match month {
        1 => "January",
        2 => "February",
        3 => "March",
        4 => "April",
        5 => "May",
        6 => "June",
        7 => "July",
        8 => "August",
        9 => "September",
        10 => "October",
        11 => "November",
        12 => "December",
        _ => "Unknown",
    }
}

} // verus!
