//! Validation of the times and dates that schedules are written with.
use vstd::prelude::*;
use crate::error::TrimlightError;
use crate::text::{chars_of, parse_int, parse_int_spec, split_chars, split_spec, trim_chars, trim_spec};

verus! {

pub const I32_MIN: i64 = -2147483648;

pub const I32_MAX: i64 = 2147483647;

/// An `i32` written in decimal, as `str::parse::<i32>` reads it.
pub open spec fn i32_of(s: Seq<char>) -> Option<int> {
    parse_int_spec(s, I32_MIN as int, I32_MAX as int)
}

/// What reading `HH:MM` gives: hours and minutes, or the message that
/// rejects the text. The two fields may carry white space around them.
pub open spec fn time_spec(s: Seq<char>) -> Result<(int, int), Seq<char>> {
    let parts = split_spec(s, ':');
    if parts.len() != 2 {
        Err("Invalid time format. Use HH:MM"@)
    } else {
        match i32_of(trim_spec(parts[0])) {
            None => Err("Invalid hours"@),
            Some(h) => match i32_of(trim_spec(parts[1])) {
                None => Err("Invalid minutes"@),
                Some(m) => if h < 0 || h > 23 || m < 0 || m > 59 {
                    Err("Invalid time values"@)
                } else {
                    Ok((h, m))
                },
            },
        }
    }
}

/// What reading `MM-DD` gives: month and day, or the message that rejects
/// the text. The day is not held to the length of the month.
pub open spec fn date_spec(s: Seq<char>) -> Result<(int, int), Seq<char>> {
    let parts = split_spec(s, '-');
    if parts.len() != 2 {
        Err("Invalid date format. Use MM-DD"@)
    } else {
        match i32_of(parts[0]) {
            None => Err("Invalid month"@),
            Some(m) => match i32_of(parts[1]) {
                None => Err("Invalid day"@),
                Some(d) => if m < 1 || m > 12 || d < 1 || d > 31 {
                    Err("Invalid date values"@)
                } else {
                    Ok((m, d))
                },
            },
        }
    }
}

/// `r` is the pair `expected` holds, or the validation error (code 400)
/// with the message it holds.
pub open spec fn pair_result_is(
    r: Result<(i32, i32), TrimlightError>,
    expected: Result<(int, int), Seq<char>>,
) -> bool {
    match expected {
        Ok(v) => r matches Ok(p) && p.0 as int == v.0 && p.1 as int == v.1,
        Err(msg) => r matches Err(e) && e.is_api_error(400, msg),
    }
}

/// Reads a time of day written `HH:MM` (hours 0 to 23, minutes 0 to 59).
pub fn parse_time(time: &str) -> (r: Result<(i32, i32), TrimlightError>)
    ensures
        pair_result_is(r, time_spec(time@)),
{
    let cs = chars_of(time);
    let parts = split_chars(&cs, ':');
    assert(parts@.len() == split_spec(time@, ':').len());
    if parts.len() != 2 {
        return Err(TrimlightError::api_error(400, "Invalid time format. Use HH:MM"));
    }
    assert(parts@[0]@ == split_spec(time@, ':')[0]);
    assert(parts@[1]@ == split_spec(time@, ':')[1]);
    let hours = match parse_int(&trim_chars(&parts[0]), I32_MIN, I32_MAX) {
        Some(h) => h,
        None => {
            return Err(TrimlightError::api_error(400, "Invalid hours"));
        },
    };
    let minutes = match parse_int(&trim_chars(&parts[1]), I32_MIN, I32_MAX) {
        Some(m) => m,
        None => {
            return Err(TrimlightError::api_error(400, "Invalid minutes"));
        },
    };
    if hours < 0 || hours > 23 || minutes < 0 || minutes > 59 {
        return Err(TrimlightError::api_error(400, "Invalid time values"));
    }
    Ok((hours as i32, minutes as i32))
}

/// Reads a day of the year written `MM-DD` (month 1 to 12, day 1 to 31).
pub fn parse_date(date: &str) -> (r: Result<(i32, i32), TrimlightError>)
    ensures
        pair_result_is(r, date_spec(date@)),
{
    let cs = chars_of(date);
    let parts = split_chars(&cs, '-');
    assert(parts@.len() == split_spec(date@, '-').len());
    if parts.len() != 2 {
        return Err(TrimlightError::api_error(400, "Invalid date format. Use MM-DD"));
    }
    assert(parts@[0]@ == split_spec(date@, '-')[0]);
    assert(parts@[1]@ == split_spec(date@, '-')[1]);
    let month = match parse_int(&parts[0], I32_MIN, I32_MAX) {
        Some(m) => m,
        None => {
            return Err(TrimlightError::api_error(400, "Invalid month"));
        },
    };
    let day = match parse_int(&parts[1], I32_MIN, I32_MAX) {
        Some(d) => d,
        None => {
            return Err(TrimlightError::api_error(400, "Invalid day"));
        },
    };
    if month < 1 || month > 12 || day < 1 || day > 31 {
        return Err(TrimlightError::api_error(400, "Invalid date values"));
    }
    Ok((month as i32, day as i32))
}

} // verus!
