//! Calendar arithmetic for the daemon's timestamps: days since the Unix
//! epoch of a proleptic Gregorian date, and the reading of RFC 3339-like
//! timestamps into seconds.
use vstd::prelude::*;

use crate::numbers::{parse_i64, parse_signed_spec, parse_unsigned, parse_unsigned_spec};
use crate::text::{lemma_split_on_nonempty, lemma_split_on_pieces_lack_sep, before_any, before_any_chars, split_once_char, split_once_spec, strip_end_matching, before_first, before_first_chars, chars_of, find_chars, find_first, slice_chars, split_chars, split_on, strip_end_in};

verus! {

/// Days from 1970-01-01 to the given date, by the era arithmetic of the
/// proleptic Gregorian calendar (eras of 400 years, years starting in March).
/// Days past the end of a month count on into the next.
pub open spec fn civil_days(year: int, month: int, day: int) -> int {
    let adjusted = year - (if month <= 2 { 1int } else { 0int });
    let era = adjusted / 400;
    let year_of_era = adjusted - era * 400;
    let month_index = month + (if month > 2 { -3int } else { 9int });
    let day_of_year = (153 * month_index + 2) / 5 + day - 1;
    let day_of_era = year_of_era * 365 + year_of_era / 4 - year_of_era / 100 + day_of_year;
    era * 146097 + day_of_era - 719468
}

pub open spec fn fits_i64(x: int) -> bool {
    i64::MIN <= x <= i64::MAX
}

/// The days, where every intermediate value of the computation fits in `i64`.
pub open spec fn days_from_civil_spec(year: int, month: int, day: int) -> Option<int> {
    let adjusted = year - (if month <= 2 { 1int } else { 0int });
    let era = adjusted / 400;
    let total = era * 146097;
    let with_days = total + (civil_days(year, month, day) + 719468 - era * 146097);
    if !fits_i64(adjusted) || !fits_i64(total) || !fits_i64(with_days) || !fits_i64(with_days - 719468) {
        None
    } else {
        Some(civil_days(year, month, day))
    }
}

/// The era arithmetic for a date with a month between 1 and 12 and a day
/// between 1 and 31.
pub fn days_from_civil(year: i64, month: i64, day: i64) -> (r: Option<i64>)
    requires
        1 <= month <= 12,
        1 <= day <= 31,
        year - (if month <= 2 { 1int } else { 0int }) >= i64::MIN + 399 || (year == i64::MIN && month <= 2),
    ensures
        match r {
            Some(d) => days_from_civil_spec(year as int, month as int, day as int) == Some(d as int),
            None => days_from_civil_spec(year as int, month as int, day as int).is_none(),
        },
{
    let adjusted: i64 = match year.checked_sub(if month <= 2 { 1 } else { 0 }) {
        Some(a) => a,
        None => {
            return None;
        },
    };
    let era: i64 = if adjusted >= 0 {
        let n: u64 = adjusted as u64;
        let q: u64 = n / 400;
        assert(q as int == (adjusted as int) / 400);
        q as i64
    } else {
        let n: u64 = (-(adjusted + 1)) as u64;
        let q: u64 = n / 400;
        assert(-(q as int) - 1 == (adjusted as int) / 400) by (nonlinear_arith)
            requires
                n as int == -(adjusted + 1),
                q as int == (n as int) / 400,
                adjusted < 0,
        {
            assert(n as int == 400 * (q as int) + (n as int) % 400);
            assert(0 <= (n as int) % 400 < 400);
            assert(adjusted as int == 400 * (-(q as int) - 1) + (399 - (n as int) % 400));
        }
        -(q as i64) - 1
    };
    let year_of_era: i64 = adjusted - era * 400;
    let month_index: i64 = month + if month > 2 { -3 } else { 9 };
    let day_of_year: i64 = (153 * month_index + 2) / 5 + day - 1;
    let day_of_era: i64 = year_of_era * 365 + year_of_era / 4 - year_of_era / 100 + day_of_year;
    match era.checked_mul(146097) {
        Some(total) => match total.checked_add(day_of_era) {
            Some(with_days) => with_days.checked_sub(719468),
            None => None,
        },
        None => None,
    }
}


/// The date and the time of a timestamp, split at the first `T`, else at
/// the first space.
pub open spec fn date_and_time(value: Seq<char>) -> Option<(Seq<char>, Seq<char>)> {
    match split_once_spec(value, 'T') {
        Some(p) => Some(p),
        None => split_once_spec(value, ' '),
    }
}

/// Year, month, day, hour, minute and second as written: the date's first
/// three `-` pieces as signed numbers; the time without trailing `Z`s, cut at
/// the first `+` or `-`, its first three `:` pieces as unsigned numbers,
/// fractions of a second ignored.
pub open spec fn timestamp_fields(value: Seq<char>) -> Option<(int, int, int, nat, nat, nat)> {
    match date_and_time(value) {
        None => None,
        Some((date, time)) => {
            let dp = split_on(date, '-');
            let t = before_any(strip_end_in(time, seq!['Z']), seq!['+', '-']);
            let tp = split_on(t, ':');
            if dp.len() < 3 || tp.len() < 3 {
                None
            } else {
                match (
                    parse_signed_spec(dp[0], i64::MIN as int, i64::MAX as int),
                    parse_signed_spec(dp[1], i64::MIN as int, i64::MAX as int),
                    parse_signed_spec(dp[2], i64::MIN as int, i64::MAX as int),
                    parse_unsigned_spec(tp[0], u64::MAX as nat),
                    parse_unsigned_spec(tp[1], u64::MAX as nat),
                    parse_unsigned_spec(before_first(tp[2], "."@), u64::MAX as nat),
                ) {
                    (Some(y), Some(mo), Some(d), Some(h), Some(mi), Some(sec)) => Some((y, mo, d, h, mi, sec)),
                    _ => None,
                }
            }
        },
    }
}

pub open spec fn fields_in_range(f: (int, int, int, nat, nat, nat)) -> bool {
    1 <= f.1 <= 12 && 1 <= f.2 <= 31 && f.3 <= 23 && f.4 <= 59 && f.5 <= 59
}

/// Seconds since the Unix epoch that a timestamp names, where it reads as
/// one and falls between the epoch and the end of `u64`.
pub open spec fn parse_timestamp_spec(value: Seq<char>) -> Option<u64> {
    match timestamp_fields(value) {
        None => None,
        Some(f) => if !fields_in_range(f) {
            None
        } else {
            match days_from_civil_spec(f.0, f.1, f.2) {
                None => None,
                Some(days) => {
                    let total = days * 86400 + f.3 * 3600 + f.4 * 60 + f.5;
                    if 0 <= total <= u64::MAX {
                        Some(total as u64)
                    } else {
                        None
                    }
                },
            }
        },
    }
}

/// The years at which the era arithmetic stays within `i64` for a date.
pub open spec fn year_computable(year: int, month: int) -> bool {
    year - (if month <= 2 { 1int } else { 0int }) >= i64::MIN + 399 || (year == i64::MIN && month <= 2)
}

/// Reading the timestamp stays within `i64` wherever the date is used.
pub open spec fn timestamp_computable(value: Seq<char>) -> bool {
    match timestamp_fields(value) {
        Some(f) => fields_in_range(f) ==> year_computable(f.0, f.1),
        None => true,
    }
}

/// The six fields of a timestamp as written (see `timestamp_fields`).
fn read_fields(value: &str) -> (r: Option<(i64, i64, i64, u64, u64, u64)>)
    ensures
        match timestamp_fields(value@) {
            Some(f) => r matches Some(x) && f == (x.0 as int, x.1 as int, x.2 as int, x.3 as nat, x.4 as nat, x.5 as nat),
            None => r is None,
        },
{
    let v = chars_of(value);
    let (date, time) = match split_once_char(&v, 'T') {
        Some(p) => p,
        None => match split_once_char(&v, ' ') {
            Some(p) => p,
            None => {
                return None;
            },
        },
    };
    let dp = split_chars(&date, '-');
    let zs = ['Z'];
    let signs = ['+', '-'];
    proof {
        assert(zs@ =~= seq!['Z']);
        assert(signs@ =~= seq!['+', '-']);
    }
    let trimmed = strip_end_matching(&time, &zs);
    let t = before_any_chars(&trimmed, &signs);
    let tp = split_chars(&t, ':');
    if dp.len() < 3 || tp.len() < 3 {
        return None;
    }
    let seconds_text = before_first_chars(&tp[2], ".");
    let year = parse_i64(&dp[0]);
    let month = parse_i64(&dp[1]);
    let day = parse_i64(&dp[2]);
    let hour = parse_unsigned(&tp[0], u64::MAX);
    let minute = parse_unsigned(&tp[1], u64::MAX);
    let second = parse_unsigned(&seconds_text, u64::MAX);
    match (year, month, day, hour, minute, second) {
        (Some(y), Some(mo), Some(d), Some(h), Some(mi), Some(sec)) => Some((y, mo, d, h, mi, sec)),
        _ => None,
    }
}

/// A timestamp's year is read from the text before its first `-`, so it is
/// never negative and the era arithmetic always stays within `i64`.
pub proof fn lemma_timestamp_computable(value: Seq<char>)
    ensures
        timestamp_computable(value),
{
    if let Some((date, time)) = date_and_time(value) {
        let dp = split_on(date, '-');
        lemma_split_on_pieces_lack_sep(date, '-');
        lemma_split_on_nonempty(date, '-');
        if dp[0].len() > 0 {
            assert(dp[0][0] != '-');
        }
    }
}

pub fn parse_timestamp(value: &str) -> (r: Option<u64>)
    ensures
        r == parse_timestamp_spec(value@),
{
    proof {
        lemma_timestamp_computable(value@);
    }
    let (year, month, day, hour, minute, second) = match read_fields(value) {
        Some(f) => f,
        None => {
            return None;
        },
    };
    if !(1 <= month && month <= 12) || !(1 <= day && day <= 31) || hour > 23 || minute > 59 || second > 59 {
        return None;
    }
    let days = match days_from_civil(year, month, day) {
        Some(d) => d,
        None => {
            return None;
        },
    };
    let total: i128 = (days as i128) * 86400 + (hour as i128) * 3600 + (minute as i128) * 60 + (second as i128);
    if 0 <= total && total <= 18446744073709551615i128 {
        Some(total as u64)
    } else {
        None
    }
}


/// The epoch is day zero; the next day of a month is the next day; and the
/// calendar repeats every 400 years, which are 146097 days.
pub proof fn civil_calendar_laws(year: int, month: int, day: int)
    requires
        1 <= month <= 12,
    ensures
        civil_days(1970, 1, 1) == 0,
        civil_days(year, month, day + 1) == civil_days(year, month, day) + 1,
        civil_days(year + 400, month, day) == civil_days(year, month, day) + 146097,
{
    let adjusted = year - (if month <= 2 { 1int } else { 0int });
    assert((adjusted + 400) / 400 == adjusted / 400 + 1) by (nonlinear_arith);
    assert(1969int / 400 == 4);
}

} // verus!
