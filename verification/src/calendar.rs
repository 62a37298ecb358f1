//! UTC timestamps for the database's `YYYY-MM-DD HH:MM:SS` text, by the
//! civil-from-days and days-from-civil day arithmetic of the proleptic
//! Gregorian calendar.
use vstd::prelude::*;
use crate::text::{
    after_first_word, chars_of, concat, decimal_padded, digits_value, first_word, next_word,
    parse_i32, parse_u32, parses_as_i32, parses_as_u32, push_char, replace,
    replace_char, signed_value, split_chars, split_on, u64_digits, u64_padded,
};

verus! {

/// Rust's `/` on integers rounds toward zero.
pub open spec fn tdiv(a: int, b: int) -> int {
    if a >= 0 {
        a / b
    } else {
        -((-a) / b)
    }
}

/// Days from 1970-01-01 to a civil date, as the program computes them with
/// `i64` division; `None` unless the month is 1 to 12 and the day 1 to 31.
pub open spec fn days_from_civil_spec(year: i32, month: u32, day: u32) -> Option<i64> {
    if !(1 <= month <= 12) || !(1 <= day <= 31) {
        None
    } else {
        let y = year as int - if month <= 2 { 1int } else { 0int };
        let era = tdiv(if y >= 0 { y } else { y - 399 }, 400);
        let yoe = y - era * 400;
        let doy = tdiv(153 * (month as int + if month > 2 { -3int } else { 9int }) + 2, 5) + day as int - 1;
        let doe = yoe * 365 + tdiv(yoe, 4) - tdiv(yoe, 100) + doy;
        Some((era * 146097 + doe - 719468) as i64)
    }
}

/// The day count of a civil date; `None` for a month outside 1 to 12 or a
/// day outside 1 to 31.
pub fn days_from_civil(year: i32, month: u32, day: u32) -> (r: Option<i64>)
    ensures
        r == days_from_civil_spec(year, month, day),
{
    if month < 1 || month > 12 || day < 1 || day > 31 {
        return None;
    }
    let y: i64 = year as i64 - if month <= 2 { 1 } else { 0 };
    let era: i64 = (if y >= 0 { y } else { y - 399 }) / 400;
    let yoe: i64 = y - era * 400;
    assert(0 <= yoe < 400 && -5400000 <= era <= 5400000) by (nonlinear_arith)
        requires
            era == tdiv(if y >= 0 { y as int } else { y - 399 }, 400),
            yoe == y - era * 400,
            -2147483649 <= y <= 2147483647,
    {
    }
    let m: i64 = month as i64;
    let doy: i64 = (153 * (m + if m > 2 { -3 } else { 9 }) + 2) / 5 + day as i64 - 1;
    let doe: i64 = yoe * 365 + yoe / 4 - yoe / 100 + doy;
    Some(era * 146097 + doe - 719468)
}

/// The civil date of a day count, as the program computes it with `i64`
/// division and the final casts.
pub open spec fn civil_of_days(days: i64) -> (i32, u32, u32) {
    let d = days as int + 719468;
    let era = tdiv(if d >= 0 { d } else { d - 146096 }, 146097);
    let doe = d - era * 146097;
    let yoe = tdiv(doe - tdiv(doe, 1460) + tdiv(doe, 36524) - tdiv(doe, 146096), 365);
    let year = yoe + era * 400;
    let doy = doe - (365 * yoe + tdiv(yoe, 4) - tdiv(yoe, 100));
    let mp = tdiv(5 * doy + 2, 153);
    let day = doy - tdiv(153 * mp + 2, 5) + 1;
    let month = mp + if mp < 10 { 3int } else { -9int };
    let year2 = year + if month <= 2 { 1int } else { 0int };
    (year2 as i32, month as u32, day as u32)
}

pub fn civil_from_days(days: i64) -> (r: (i32, u32, u32))
    requires
        i64::MIN + 146096 - 719468 <= days <= i64::MAX - 719468,
    ensures
        r == civil_of_days(days),
{
    let d: i64 = days + 719468;
    let era: i64 = (if d >= 0 { d } else { d - 146096 }) / 146097;
    let doe: i64 = d - era * 146097;
    assert(0 <= doe < 146097) by (nonlinear_arith)
        requires
            era == tdiv(if d >= 0 { d as int } else { d - 146096 }, 146097),
            doe == d - era * 146097,
    {
    }
    let yoe: i64 = (doe - doe / 1460 + doe / 36524 - doe / 146096) / 365;
    assert(0 <= yoe <= 400) by (nonlinear_arith)
        requires
            0 <= doe < 146097,
            yoe == tdiv(doe - tdiv(doe as int, 1460) + tdiv(doe as int, 36524) - tdiv(doe as int, 146096), 365),
    {
    }
    assert(-70000000000000 <= era <= 70000000000000) by (nonlinear_arith)
        requires
            era == tdiv(if d >= 0 { d as int } else { d - 146096 }, 146097),
            i64::MIN + 146096 <= d <= i64::MAX,
    {
    }
    let year: i64 = yoe + era * 400;
    let doy: i64 = doe - (365 * yoe + yoe / 4 - yoe / 100);
    let mp: i64 = (5 * doy + 2) / 153;
    let day: i64 = doy - (153 * mp + 2) / 5 + 1;
    let month: i64 = mp + if mp < 10 { 3 } else { -9 };
    let year2: i64 = year + if month <= 2 { 1 } else { 0 };
    #[verifier::truncate]
    let y32 = year2 as i32;
    #[verifier::truncate]
    let m32 = month as u32;
    #[verifier::truncate]
    let d32 = day as u32;
    (y32, m32, d32)
}


/// The value of a `u32` numeral.
pub open spec fn u32_value(s: Seq<char>) -> int {
    digits_value(u64_digits(s)) as int
}

/// Seconds into the day of a `HH:MM[:SS]` clock reading; a missing reading is
/// midnight and missing seconds are zero. The fields are not range-checked.
pub open spec fn clock_seconds(time: Option<Seq<char>>) -> Option<int> {
    match time {
        None => Some(0),
        Some(t) => {
            let tp = split_on(t, ':');
            if tp.len() < 2 || !parses_as_u32(tp[0]) || !parses_as_u32(tp[1]) || (tp.len() >= 3
                && !parses_as_u32(tp[2])) {
                None
            } else {
                Some(u32_value(tp[0]) * 3600 + u32_value(tp[1]) * 60 + if tp.len() >= 3 {
                    u32_value(tp[2])
                } else {
                    0
                })
            }
        },
    }
}

/// The day count of a `YYYY-MM-DD` date, when its three fields parse and the
/// month and day are in range.
pub open spec fn date_days(date: Seq<char>) -> Option<int> {
    let dp = split_on(date, '-');
    if dp.len() < 3 || !parses_as_i32(dp[0]) || !parses_as_u32(dp[1]) || !parses_as_u32(dp[2]) {
        None
    } else {
        match days_from_civil_spec(
            signed_value(dp[0]) as i32,
            u32_value(dp[1]) as u32,
            u32_value(dp[2]) as u32,
        ) {
            Some(d) => Some(d as int),
            None => None,
        }
    }
}

/// Seconds since 1970-01-01 00:00:00 UTC of a database timestamp: a date, then
/// after white space (or a `T`) an optional clock reading.
pub open spec fn datetime_seconds(value: Seq<char>) -> Option<int> {
    let n = replace_char(value, 'T', ' ');
    match first_word(n) {
        None => None,
        Some(date) => match (date_days(date), clock_seconds(first_word(after_first_word(n)))) {
            (Some(days), Some(secs)) => Some(days * 86400 + secs),
            _ => None,
        },
    }
}

fn clock_of(time: Option<Vec<char>>) -> (r: Option<i64>)
    ensures
        match r {
            Some(v) => clock_seconds(match time {
                Some(t) => Some(t@),
                None => None,
            }) == Some(v as int),
            None => clock_seconds(match time {
                Some(t) => Some(t@),
                None => None,
            }) is None,
        },
{
    match time {
        None => Some(0),
        Some(t) => {
            let tp = split_chars(t.as_slice(), ':');
            assert(tp@.len() == split_on(t@, ':').len());
            if tp.len() < 2 {
                return None;
            }
            assert(tp@[0]@ == split_on(t@, ':')[0]);
            assert(tp@[1]@ == split_on(t@, ':')[1]);
            let hour = match parse_u32(tp[0].as_slice()) {
                Some(h) => h,
                None => return None,
            };
            let minute = match parse_u32(tp[1].as_slice()) {
                Some(m) => m,
                None => return None,
            };
            let second: u32 = if tp.len() >= 3 {
                assert(tp@[2]@ == split_on(t@, ':')[2]);
                match parse_u32(tp[2].as_slice()) {
                    Some(v) => v,
                    None => return None,
                }
            } else {
                0
            };
            Some(hour as i64 * 3600 + minute as i64 * 60 + second as i64)
        },
    }
}

fn date_of(date: &Vec<char>) -> (r: Option<i64>)
    ensures
        match r {
            Some(v) => date_days(date@) == Some(v as int),
            None => date_days(date@) is None,
        },
{
    let dp = split_chars(date.as_slice(), '-');
    assert(dp@.len() == split_on(date@, '-').len());
    if dp.len() < 3 {
        return None;
    }
    assert(dp@[0]@ == split_on(date@, '-')[0]);
    assert(dp@[1]@ == split_on(date@, '-')[1]);
    assert(dp@[2]@ == split_on(date@, '-')[2]);
    let year = match parse_i32(dp[0].as_slice()) {
        Some(y) => y,
        None => return None,
    };
    let month = match parse_u32(dp[1].as_slice()) {
        Some(m) => m,
        None => return None,
    };
    let day = match parse_u32(dp[2].as_slice()) {
        Some(d) => d,
        None => return None,
    };
    days_from_civil(year, month, day)
}

/// Seconds since the Unix epoch of a `YYYY-MM-DD[ HH:MM[:SS]]` timestamp as the
/// database writes it (`T` is accepted in place of the space); `None` when a
/// field does not parse or the month or day is out of range.
pub fn parse_sqlite_datetime(value: &str) -> (r: Option<i64>)
    ensures
        match r {
            Some(v) => datetime_seconds(value@) == Some(v as int),
            None => datetime_seconds(value@) is None,
        },
{
    let chars = chars_of(value);
    let normalized = replace(chars.as_slice(), 'T', ' ');
    let (date, after) = next_word(normalized.as_slice());
    let date = match date {
        Some(d) => d,
        None => return None,
    };
    let (time, _) = next_word(after.as_slice());
    let days = date_of(&date);
    let secs = clock_of(time);
    match (days, secs) {
        (Some(d), Some(c)) => {
            proof {
                let dp = split_on(date@, '-');
                assert(-2147483648 <= signed_value(dp[0]) <= 2147483647);
                assert(days_from_civil_spec(signed_value(dp[0]) as i32, u32_value(dp[1]) as u32, u32_value(dp[2]) as u32) == Some(d));
            }
            assert(-800000000000 <= d <= 800000000000) by {
                let dp = split_on(date@, '-');
                lemma_days_bound(signed_value(dp[0]) as i32, u32_value(dp[1]) as u32, u32_value(dp[2]) as u32);
            }
            assert(0 <= c <= 4294967295 * 3661);
            Some(d * 86400 + c)
        },
        _ => None,
    }
}

proof fn lemma_days_bound(year: i32, month: u32, day: u32)
    ensures
        days_from_civil_spec(year, month, day) matches Some(d) ==> -800000000000 <= d <= 800000000000,
{
    if 1 <= month <= 12 && 1 <= day <= 31 {
        let y = year as int - if month <= 2 { 1int } else { 0int };
        let era = tdiv(if y >= 0 { y } else { y - 399 }, 400);
        let yoe = y - era * 400;
        assert(0 <= yoe < 400 && -5400000 <= era <= 5400000) by (nonlinear_arith)
            requires
                era == tdiv(if y >= 0 { y } else { y - 399 }, 400),
                yoe == y - era * 400,
                -2147483649 <= y <= 2147483647,
        {
        }
    }
}

/// A year as `{:04}` prints it: zero-padded to four characters, sign included.
pub open spec fn year_text(y: int) -> Seq<char> {
    if y < 0 {
        seq!['-'] + decimal_padded((-y) as nat, 3)
    } else {
        decimal_padded(y as nat, 4)
    }
}

/// `YYYY-MM-DD HH:MM:SS` (UTC) for seconds since the Unix epoch.
pub open spec fn datetime_text(timestamp: int) -> Seq<char> {
    let days = timestamp / 86400;
    let secs = timestamp % 86400;
    let ymd = civil_of_days(days as i64);
    year_text(ymd.0 as int) + seq!['-'] + decimal_padded(ymd.1 as nat, 2) + seq!['-']
        + decimal_padded(ymd.2 as nat, 2) + seq![' '] + decimal_padded((secs / 3600) as nat, 2)
        + seq![':'] + decimal_padded(((secs % 3600) / 60) as nat, 2) + seq![':']
        + decimal_padded((secs % 60) as nat, 2)
}

fn year_string(y: i32) -> (r: String)
    ensures
        r@ == year_text(y as int),
{
    if y < 0 {
        let magnitude: u64 = (0 - (y as i64)) as u64;
        let mut out = String::new();
        push_char(&mut out, '-');
        let digits = u64_padded(magnitude, 3);
        let r = concat(out.as_str(), digits.as_str());
        assert(out@ =~= seq!['-']);
        r
    } else {
        u64_padded(y as u64, 4)
    }
}

/// `YYYY-MM-DD HH:MM:SS` in UTC for seconds since the Unix epoch.
pub fn format_datetime(timestamp: i64) -> (r: String)
    ensures
        r@ == datetime_text(timestamp as int),
{
    let mut days: i64 = timestamp / 86400;
    let mut seconds: i64 = timestamp % 86400;
    if seconds < 0 {
        days = days - 1;
        seconds = seconds + 86400;
    }
    assert(days == timestamp as int / 86400 && seconds == timestamp as int % 86400) by (nonlinear_arith)
        requires
            seconds == (if timestamp % 86400 != 0 && timestamp < 0 { timestamp - tdiv(timestamp as int, 86400) * 86400 + 86400 } else { timestamp - tdiv(timestamp as int, 86400) * 86400 }),
            days == (if timestamp % 86400 != 0 && timestamp < 0 { tdiv(timestamp as int, 86400) - 1 } else { tdiv(timestamp as int, 86400) }),
    {
    }
    let (year, month, day) = civil_from_days(days);
    let hour: i64 = seconds / 3600;
    let minute: i64 = (seconds % 3600) / 60;
    let second: i64 = seconds % 60;
    let mut out = year_string(year);
    push_char(&mut out, '-');
    let t = u64_padded(month as u64, 2);
    out = concat(out.as_str(), t.as_str());
    push_char(&mut out, '-');
    let t = u64_padded(day as u64, 2);
    out = concat(out.as_str(), t.as_str());
    push_char(&mut out, ' ');
    let t = u64_padded(hour as u64, 2);
    out = concat(out.as_str(), t.as_str());
    push_char(&mut out, ':');
    let t = u64_padded(minute as u64, 2);
    out = concat(out.as_str(), t.as_str());
    push_char(&mut out, ':');
    let t = u64_padded(second as u64, 2);
    out = concat(out.as_str(), t.as_str());
    out
}

} // verus!
