//! Calendar times and validity intervals.
//!
//! A time is kept as its calendar components; comparing two times is
//! lexicographic over the components, which matches the order of the
//! instants they denote. The ambient current time is always an explicit
//! argument, never global state.

use vstd::prelude::*;
use crate::der;

verus! {

/// A UTC calendar time, to second precision.
#[derive(Clone, Copy, Debug, PartialEq, Eq, Structural)]
pub struct Time {
    pub year: u16,
    pub month: u8,
    pub day: u8,
    pub hour: u8,
    pub minute: u8,
    pub second: u8,
}

/// A not-before / not-after interval.
#[derive(Clone, Copy, Debug, PartialEq, Eq, Structural)]
pub struct Validity {
    pub not_before: Time,
    pub not_after: Time,
}

/// Whether `a` denotes an instant no later than `b`.
pub open spec fn sp_time_le(a: Time, b: Time) -> bool {
    if a.year != b.year {
        a.year < b.year
    } else if a.month != b.month {
        a.month < b.month
    } else if a.day != b.day {
        a.day < b.day
    } else if a.hour != b.hour {
        a.hour < b.hour
    } else if a.minute != b.minute {
        a.minute < b.minute
    } else {
        a.second <= b.second
    }
}

/// Compares two times, lexicographically over the calendar components.
pub fn time_le(a: &Time, b: &Time) -> (r: bool)
    ensures
        r == sp_time_le(*a, *b),
{
    if a.year != b.year {
        a.year < b.year
    } else if a.month != b.month {
        a.month < b.month
    } else if a.day != b.day {
        a.day < b.day
    } else if a.hour != b.hour {
        a.hour < b.hour
    } else if a.minute != b.minute {
        a.minute < b.minute
    } else {
        a.second <= b.second
    }
}

impl Validity {
    /// Whether `now` falls within the interval.
    pub open spec fn sp_current(self, now: Time) -> bool {
        sp_time_le(self.not_before, now) && sp_time_le(now, self.not_after)
    }

    /// Checks that `now` falls within the interval, per the usual
    /// not-before / not-after semantics.
    pub fn validate(&self, now: &Time) -> (r: bool)
        ensures
            r == self.sp_current(*now),
    {
        time_le(&self.not_before, now) && time_le(now, &self.not_after)
    }
}

/// The value of a decimal digit octet, or None if it is not a digit.
pub open spec fn sp_digit(b: u8) -> Option<int> {
    if 0x30 <= b <= 0x39 {
        Some(b as int - 0x30)
    } else {
        None
    }
}

/// The value of the two decimal digit octets at `i`, or None.
pub open spec fn sp_dec2(s: Seq<u8>, i: int) -> Option<int> {
    if 0 <= i && i + 2 <= s.len() {
        match (sp_digit(s[i]), sp_digit(s[i + 1])) {
            (Some(h), Some(l)) => Some(h * 10 + l),
            _ => None,
        }
    } else {
        None
    }
}

/// Reads two decimal digit octets at `i`.
pub fn dec2(s: &[u8], i: usize) -> (r: Option<u8>)
    ensures
        match r {
            Some(v) => sp_dec2(s@, i as int) == Some(v as int) && v < 100,
            None => sp_dec2(s@, i as int) is None,
        },
{
    if s.len() >= 2 && i <= s.len() - 2 {
        let h = s[i];
        let l = s[i + 1];
        if 0x30 <= h && h <= 0x39 && 0x30 <= l && l <= 0x39 {
            Some((h - 0x30) * 10 + (l - 0x30))
        } else {
            None
        }
    } else {
        None
    }
}

/// Whether a year is a leap year in the Gregorian calendar.
pub open spec fn sp_is_leap_year(year: u16) -> bool {
    year % 4 == 0 && (year % 100 != 0 || year % 400 == 0)
}

/// The number of days in a month of a year.
pub open spec fn sp_days_in_month(year: u16, month: u8) -> u8 {
    if month == 2 {
        if sp_is_leap_year(year) {
            29
        } else {
            28
        }
    } else if month == 4 || month == 6 || month == 9 || month == 11 {
        30
    } else {
        31
    }
}

/// Whether the calendar components denote a real instant: month and day in
/// range for the year, and each time component within its bound.
pub open spec fn sp_components_ok(t: Time) -> bool {
    &&& 1 <= t.month <= 12
    &&& 1 <= t.day <= sp_days_in_month(t.year, t.month)
    &&& t.hour <= 23
    &&& t.minute <= 59
    &&& t.second <= 59
}

/// Parses the content octets `[cs, ce)` of a time element with tag `tag`:
/// a UTCTime of the form YYMMDDHHMMSSZ, its two-digit year mapped to
/// 1950-2049, or a GeneralizedTime of the form YYYYMMDDHHMMSSZ.
pub open spec fn sp_parse_time(s: Seq<u8>, tag: u8, cs: int, ce: int) -> Option<Time> {
    if tag == 0x17 && ce - cs == 13 && ce <= s.len() && s[ce - 1] == 0x5a {
        match (
            sp_dec2(s, cs),
            sp_dec2(s, cs + 2),
            sp_dec2(s, cs + 4),
            sp_dec2(s, cs + 6),
            sp_dec2(s, cs + 8),
            sp_dec2(s, cs + 10),
        ) {
            (Some(yy), Some(mo), Some(dy), Some(hr), Some(mi), Some(sc)) => {
                let year = if yy >= 50 {
                    1900 + yy
                } else {
                    2000 + yy
                };
                let t = Time {
                    year: year as u16,
                    month: mo as u8,
                    day: dy as u8,
                    hour: hr as u8,
                    minute: mi as u8,
                    second: sc as u8,
                };
                if sp_components_ok(t) {
                    Some(t)
                } else {
                    None
                }
            },
            _ => None,
        }
    } else if tag == 0x18 && ce - cs == 15 && ce <= s.len() && s[ce - 1] == 0x5a {
        match (
            sp_dec2(s, cs),
            sp_dec2(s, cs + 2),
            sp_dec2(s, cs + 4),
            sp_dec2(s, cs + 6),
            sp_dec2(s, cs + 8),
            sp_dec2(s, cs + 10),
            sp_dec2(s, cs + 12),
        ) {
            (Some(hi), Some(lo), Some(mo), Some(dy), Some(hr), Some(mi), Some(sc)) => {
                let t = Time {
                    year: (hi * 100 + lo) as u16,
                    month: mo as u8,
                    day: dy as u8,
                    hour: hr as u8,
                    minute: mi as u8,
                    second: sc as u8,
                };
                if sp_components_ok(t) {
                    Some(t)
                } else {
                    None
                }
            },
            _ => None,
        }
    } else {
        None
    }
}

/// Reads the time whose content octets are `[cs, ce)` and whose tag is `tag`.
pub fn parse_time(s: &[u8], tag: u8, cs: usize, ce: usize) -> (r: Option<Time>)
    requires
        cs <= ce <= s@.len(),
    ensures
        r == sp_parse_time(s@, tag, cs as int, ce as int),
{
    if tag == 0x17 && ce - cs == 13 && s[ce - 1] == 0x5a {
        let yy = dec2(s, cs);
        let mo = dec2(s, cs + 2);
        let dy = dec2(s, cs + 4);
        let hr = dec2(s, cs + 6);
        let mi = dec2(s, cs + 8);
        let sc = dec2(s, cs + 10);
        match (yy, mo, dy, hr, mi, sc) {
            (Some(yy), Some(mo), Some(dy), Some(hr), Some(mi), Some(sc)) => {
                let year: u16 = if yy >= 50 {
                    1900 + yy as u16
                } else {
                    2000 + yy as u16
                };
                let t = Time { year, month: mo, day: dy, hour: hr, minute: mi, second: sc };
                if components_ok(&t) {
                    Some(t)
                } else {
                    None
                }
            },
            _ => None,
        }
    } else if tag == 0x18 && ce - cs == 15 && s[ce - 1] == 0x5a {
        let hi = dec2(s, cs);
        let lo = dec2(s, cs + 2);
        let mo = dec2(s, cs + 4);
        let dy = dec2(s, cs + 6);
        let hr = dec2(s, cs + 8);
        let mi = dec2(s, cs + 10);
        let sc = dec2(s, cs + 12);
        match (hi, lo, mo, dy, hr, mi, sc) {
            (Some(hi), Some(lo), Some(mo), Some(dy), Some(hr), Some(mi), Some(sc)) => {
                let year: u16 = (hi as u16) * 100 + lo as u16;
                let t = Time { year, month: mo, day: dy, hour: hr, minute: mi, second: sc };
                if components_ok(&t) {
                    Some(t)
                } else {
                    None
                }
            },
            _ => None,
        }
    } else {
        None
    }
}

/// Checks the calendar component ranges.
pub fn components_ok(t: &Time) -> (r: bool)
    ensures
        r == sp_components_ok(*t),
{
    let days: u8 = if t.month == 2 {
        if t.year % 4 == 0 && (t.year % 100 != 0 || t.year % 400 == 0) {
            29
        } else {
            28
        }
    } else if t.month == 4 || t.month == 6 || t.month == 9 || t.month == 11 {
        30
    } else {
        31
    };
    1 <= t.month && t.month <= 12 && 1 <= t.day && t.day <= days && t.hour <= 23 && t.minute <= 59
        && t.second <= 59
}

/// Parses a validity interval: a sequence element holding exactly two time
/// elements. Returns the interval and the position just past the element.
#[verifier::opaque]
pub open spec fn sp_parse_validity(s: Seq<u8>, i: int, limit: int) -> Option<(Validity, int)> {
    match der::sp_element(s, i, limit) {
        Some((tag, cs, ce)) => {
            if tag != 0x30 {
                None
            } else {
                match der::sp_element(s, cs, ce) {
                    Some((t1, c1s, c1e)) => match sp_parse_time(s, t1, c1s, c1e) {
                        Some(nb) => match der::sp_element(s, c1e, ce) {
                            Some((t2, c2s, c2e)) => match sp_parse_time(s, t2, c2s, c2e) {
                                Some(na) => if c2e == ce {
                                    Some((Validity { not_before: nb, not_after: na }, ce))
                                } else {
                                    None
                                },
                                None => None,
                            },
                            None => None,
                        },
                        None => None,
                    },
                    None => None,
                }
            }
        },
        None => None,
    }
}

/// Reads a validity interval starting at `i`, ending at or before `limit`.
pub fn parse_validity(s: &[u8], i: usize, limit: usize) -> (r: Option<(Validity, usize)>)
    requires
        limit <= s@.len(),
    ensures
        match r {
            Some((v, end)) => sp_parse_validity(s@, i as int, limit as int) == Some(
                (v, end as int),
            ) && i < end <= limit,
            None => sp_parse_validity(s@, i as int, limit as int) is None,
        },
{
    proof {
        reveal(sp_parse_validity);
    }
    match der::read_element(s, i, limit) {
        Some((tag, cs, ce)) => {
            if tag != 0x30 {
                return None;
            }
            match der::read_element(s, cs, ce) {
                Some((t1, c1s, c1e)) => match parse_time(s, t1, c1s, c1e) {
                    Some(nb) => match der::read_element(s, c1e, ce) {
                        Some((t2, c2s, c2e)) => match parse_time(s, t2, c2s, c2e) {
                            Some(na) => if c2e == ce {
                                Some((Validity { not_before: nb, not_after: na }, ce))
                            } else {
                                None
                            },
                            None => None,
                        },
                        None => None,
                    },
                    None => None,
                },
                None => None,
            }
        },
        None => None,
    }
}

} // verus!
