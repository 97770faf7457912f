//! Time bucketing for the metric aggregator: hour, day and week buckets
//! are fixed-length and aligned to the epoch (weeks to the Monday grid);
//! month buckets follow the civil calendar. Every function works in whole
//! seconds since the epoch, on instants at or after it.

use vstd::prelude::*;

verus! {

/// The bucketing interval of a timeseries query.
#[derive(Clone, Copy, PartialEq, Eq, Structural, Debug)]
pub enum Interval {
    Hour,
    Day,
    Week,
    Month,
}

/// The interval named by a query string, if any.
pub open spec fn spec_interval_from(s: Seq<char>) -> Option<Interval> {
    if s == "hour"@ {
        Option::Some(Interval::Hour)
    } else if s == "day"@ {
        Option::Some(Interval::Day)
    } else if s == "week"@ {
        Option::Some(Interval::Week)
    } else if s == "month"@ {
        Option::Some(Interval::Month)
    } else {
        Option::None
    }
}

/// Parse an interval name.
pub fn interval_from_str(s: &String) -> (r: Option<Interval>)
    ensures
        r == spec_interval_from(s@),
{
    if crate::strutil::string_eq_str(s, "hour") {
        Some(Interval::Hour)
    } else if crate::strutil::string_eq_str(s, "day") {
        Some(Interval::Day)
    } else if crate::strutil::string_eq_str(s, "week") {
        Some(Interval::Week)
    } else if crate::strutil::string_eq_str(s, "month") {
        Some(Interval::Month)
    } else {
        None
    }
}

/// A leap year of the civil calendar.
pub open spec fn spec_is_leap(y: int) -> bool {
    y % 4 == 0 && (y % 100 != 0 || y % 400 == 0)
}

/// Days in a civil year.
pub open spec fn spec_days_in_year(y: int) -> int {
    if spec_is_leap(y) {
        366
    } else {
        365
    }
}

/// Days in a civil month (1 through 12).
pub open spec fn spec_days_in_month(y: int, m: int) -> int {
    if m == 2 {
        if spec_is_leap(y) {
            29
        } else {
            28
        }
    } else if m == 4 || m == 6 || m == 9 || m == 11 {
        30
    } else {
        31
    }
}

/// The year containing a day counted from the start of year `y`, and the
/// day's offset within that year.
pub open spec fn spec_year_seek(y: int, day: int) -> (int, int)
    decreases day,
{
    if day < spec_days_in_year(y) || day <= 0 {
        (y, day)
    } else {
        spec_year_seek(y + 1, day - spec_days_in_year(y))
    }
}

/// The month containing a day counted from the start of month `m` of year
/// `y`, and the day's offset within that month.
pub open spec fn spec_month_seek(y: int, m: int, day: int) -> (int, int)
    decreases day,
{
    if day < spec_days_in_month(y, m) || day <= 0 {
        (m, day)
    } else {
        spec_month_seek(y, m + 1, day - spec_days_in_month(y, m))
    }
}

/// Total days of `count` months starting at month `m` of year `y`.
pub open spec fn spec_sum_months(y: int, m: int, count: int) -> int
    decreases count,
{
    if count <= 0 {
        0
    } else {
        spec_days_in_month(y, m) + spec_sum_months(y, m + 1, count - 1)
    }
}

/// The twelve months of a year hold exactly its days.
pub proof fn lemma_months_of_year(y: int)
    ensures
        spec_sum_months(y, 1, 12) == spec_days_in_year(y),
{
    assert(spec_sum_months(y, 13, 0) == 0);
    assert(spec_sum_months(y, 12, 1) == 31);
    assert(spec_sum_months(y, 11, 2) == 30 + 31);
    assert(spec_sum_months(y, 10, 3) == 31 + 30 + 31);
    assert(spec_sum_months(y, 9, 4) == 30 + 31 + 30 + 31);
    assert(spec_sum_months(y, 8, 5) == 31 + 30 + 31 + 30 + 31);
    assert(spec_sum_months(y, 7, 6) == 31 + 31 + 30 + 31 + 30 + 31);
    assert(spec_sum_months(y, 6, 7) == 30 + 31 + 31 + 30 + 31 + 30 + 31);
    assert(spec_sum_months(y, 5, 8) == 31 + 30 + 31 + 31 + 30 + 31 + 30 + 31);
    assert(spec_sum_months(y, 4, 9) == 30 + 31 + 30 + 31 + 31 + 30 + 31 + 30 + 31);
    assert(spec_sum_months(y, 3, 10) == 31 + 30 + 31 + 30 + 31 + 31 + 30 + 31 + 30 + 31);
    assert(spec_sum_months(y, 2, 11) == spec_days_in_month(y, 2) + 306);
    assert(spec_sum_months(y, 1, 12) == 31 + spec_days_in_month(y, 2) + 306);
}

/// Start of the bucket containing `ts`, per interval. Hours, days and
/// weeks are fixed grids (weeks aligned to Monday, 1970-01-05); months
/// start on the first day of the civil month.
pub open spec fn spec_bucket_start(interval: Interval, ts: int) -> int {
    match interval {
        Interval::Hour => ts - ts % 3600,
        Interval::Day => ts - ts % 86400,
        Interval::Week => {
            let day = ts / 86400;
            (day - (day + 3) % 7) * 86400
        },
        Interval::Month => {
            let day = ts / 86400;
            let yd = spec_year_seek(1970, day);
            let md = spec_month_seek(yd.0, 1, yd.1);
            (day - md.1) * 86400
        },
    }
}

/// Start of the bucket after the one starting at `b`.
pub open spec fn spec_bucket_next(interval: Interval, b: int) -> int {
    match interval {
        Interval::Hour => b + 3600,
        Interval::Day => b + 86400,
        Interval::Week => b + 604800,
        Interval::Month => {
            let day = b / 86400;
            let yd = spec_year_seek(1970, day);
            let md = spec_month_seek(yd.0, 1, yd.1);
            b + spec_days_in_month(yd.0, md.0) * 86400
        },
    }
}

/// Bounds that keep the bucket arithmetic inside `i64`: one hundred
/// thousand years of seconds.
pub open spec fn spec_ts_in_range(ts: int) -> bool {
    0 <= ts < 3200000000000
}

/// Days in a civil year, executable.
fn days_in_year(y: i64) -> (r: i64)
    requires
        y >= 1970,
    ensures
        r as int == spec_days_in_year(y as int),
        365 <= r <= 366,
{
    if y % 4 == 0 && (y % 100 != 0 || y % 400 == 0) {
        366
    } else {
        365
    }
}

/// Days in a civil month, executable.
fn days_in_month(y: i64, m: i64) -> (r: i64)
    requires
        y >= 1970,
        1 <= m <= 12,
    ensures
        r as int == spec_days_in_month(y as int, m as int),
        28 <= r <= 31,
{
    if m == 2 {
        if y % 4 == 0 && (y % 100 != 0 || y % 400 == 0) {
            29
        } else {
            28
        }
    } else if m == 4 || m == 6 || m == 9 || m == 11 {
        30
    } else {
        31
    }
}

/// Bucket bounds of the bucket containing `ts`: its start and the start of
/// the bucket after it.
pub fn bucket_bounds(interval: Interval, ts: i64) -> (r: (i64, i64))
    requires
        spec_ts_in_range(ts as int),
    ensures
        r.0 as int == spec_bucket_start(interval, ts as int),
        r.1 as int == spec_bucket_next(interval, r.0 as int),
        r.0 <= ts < r.1,
        r.0 + 3600 <= r.1,
        r.0 >= -604800,
        interval == Interval::Month ==> r.0 >= 0,
{
    match interval {
        Interval::Hour => {
            let b = ts - ts % 3600;
            (b, b + 3600)
        },
        Interval::Day => {
            let b = ts - ts % 86400;
            (b, b + 86400)
        },
        Interval::Week => {
            let day = ts / 86400;
            let b = (day - (day + 3) % 7) * 86400;
            proof {
                assert(b <= ts && ts < b + 604800 && b >= 0 - 604800 && (b as int) / 86400 == day
                    - (day + 3) % 7 && ((b as int) / 86400 + 3) % 7 == 0) by (nonlinear_arith)
                    requires
                        0 <= (ts as int) < 3200000000000int,
                        day as int == (ts as int) / 86400,
                        b as int == (day as int - (day as int + 3) % 7) * 86400,
                ;
            }
            (b, b + 604800)
        },
        Interval::Month => {
            let day = ts / 86400;
            proof {
                assert(0 <= day < 40000000);
            }
            // Walk years, then months, to the civil month containing `day`.
            let mut y: i64 = 1970;
            let mut rem: i64 = day;
            let mut diy = days_in_year(y);
            while rem >= diy
                invariant
                    0 <= rem <= day,
                    0 <= day < 40000000,
                    1970 <= y,
                    y - 1970 <= day - rem,
                    diy as int == spec_days_in_year(y as int),
                    365 <= diy <= 366,
                    spec_year_seek(1970, day as int) == spec_year_seek(y as int, rem as int),
                decreases rem,
            {
                rem = rem - diy;
                y = y + 1;
                diy = days_in_year(y);
            }
            proof {
                assert(spec_year_seek(y as int, rem as int) == (y as int, rem as int));
                lemma_months_of_year(y as int);
            }
            let mut m: i64 = 1;
            let mut mrem: i64 = rem;
            let mut dim = days_in_month(y, m);
            while m < 12 && mrem >= dim
                invariant
                    y >= 1970,
                    1 <= m <= 12,
                    0 <= mrem <= rem,
                    0 <= rem < 366,
                    dim as int == spec_days_in_month(y as int, m as int),
                    28 <= dim <= 31,
                    spec_month_seek(y as int, 1, rem as int) == spec_month_seek(
                        y as int,
                        m as int,
                        mrem as int,
                    ),
                    spec_sum_months(y as int, m as int, 13 - m as int) > mrem as int,
                decreases 12 - m,
            {
                proof {
                    assert(spec_sum_months(y as int, m as int, 13 - m as int) == spec_days_in_month(
                        y as int,
                        m as int,
                    ) + spec_sum_months(y as int, m as int + 1, 12 - m as int));
                }
                mrem = mrem - dim;
                m = m + 1;
                dim = days_in_month(y, m);
            }
            proof {
                if mrem >= dim {
                    // Only the twelfth month can be reached still carrying
                    // days, and it cannot: the year's months cover the year.
                    assert(m == 12);
                    assert(spec_sum_months(y as int, 13, 0) == 0);
                    assert(spec_sum_months(y as int, 12, 1) == spec_days_in_month(y as int, 12)
                        + spec_sum_months(y as int, 13, 0));
                }
                assert(mrem < dim);
                assert(spec_month_seek(y as int, m as int, mrem as int) == (m as int, mrem as int));
            }
            let b = (day - mrem) * 86400;
            proof {
                assert(0 <= b && b <= ts && ts < b + dim * 86400 && (b as int) / 86400 == day
                    - mrem) by (nonlinear_arith)
                    requires
                        0 <= (ts as int) < 3200000000000int,
                        day as int == (ts as int) / 86400,
                        0 <= (mrem as int) <= day as int,
                        1 <= dim as int <= 31,
                        (mrem as int) < dim as int,
                        b as int == (day as int - mrem as int) * 86400,
                ;
                // The next bucket's seek sees the same civil month.
                assert(spec_year_seek(1970, day as int - mrem as int) == (y as int, rem as int
                    - mrem as int)) by {
                    lemma_year_seek_shift(1970, day as int, y as int, rem as int, mrem as int);
                }
                assert(spec_month_seek(y as int, 1, rem as int - mrem as int) == (m as int, 0int))
                    by {
                    lemma_month_seek_shift(y as int, 1, rem as int, m as int, mrem as int);
                }
            }
            (b, b + dim * 86400)
        },
    }
}

/// A year seek's offset never exceeds the day it started from.
proof fn lemma_year_seek_bound(y0: int, day: int)
    requires
        0 <= day,
    ensures
        0 <= spec_year_seek(y0, day).1 <= day,
    decreases day,
{
    if !(day < spec_days_in_year(y0) || day <= 0) {
        lemma_year_seek_bound(y0 + 1, day - spec_days_in_year(y0));
    }
}

/// A month seek's offset never exceeds the day it started from.
proof fn lemma_month_seek_bound(y: int, m0: int, day: int)
    requires
        0 <= day,
    ensures
        0 <= spec_month_seek(y, m0, day).1 <= day,
    decreases day,
{
    if !(day < spec_days_in_month(y, m0) || day <= 0) {
        lemma_month_seek_bound(y, m0 + 1, day - spec_days_in_month(y, m0));
    }
}

/// Seeking the first day of the year block a seek found lands on the same
/// year with offset reduced by the step back.
proof fn lemma_year_seek_shift(y0: int, day: int, y: int, rem: int, back: int)
    requires
        0 <= day,
        0 <= back <= rem,
        spec_year_seek(y0, day) == (y, rem),
    ensures
        spec_year_seek(y0, day - back) == (y, rem - back),
    decreases day,
{
    if day < spec_days_in_year(y0) || day <= 0 {
    } else {
        lemma_year_seek_bound(y0 + 1, day - spec_days_in_year(y0));
        lemma_year_seek_shift(y0 + 1, day - spec_days_in_year(y0), y, rem, back);
    }
}

/// Seeking the first day of the month block a seek found lands on the same
/// month with offset zero.
proof fn lemma_month_seek_shift(y: int, m0: int, day: int, m: int, back: int)
    requires
        0 <= day,
        0 <= back,
        spec_month_seek(y, m0, day) == (m, back),
    ensures
        spec_month_seek(y, m0, day - back) == (m, 0int),
    decreases day,
{
    if day < spec_days_in_month(y, m0) || day <= 0 {
    } else {
        lemma_month_seek_bound(y, m0 + 1, day - spec_days_in_month(y, m0));
        lemma_month_seek_shift(y, m0 + 1, day - spec_days_in_month(y, m0), m, back);
    }
}

} // verus!
