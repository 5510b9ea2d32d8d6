//! UTC calendar arithmetic for timestamps.

use vstd::prelude::*;

use crate::text::{dec, decimal, pad_left, pad_left_with};

verus! {

broadcast use vstd::seq_lib::group_seq_properties;

pub open spec fn is_leap(y: int) -> bool {
    y % 4 == 0 && (y % 100 != 0 || y % 400 == 0)
}

pub open spec fn month_days(y: int, m: int) -> int {
    if m == 2 {
        if is_leap(y) {
            29
        } else {
            28
        }
    } else if m == 4 || m == 6 || m == 9 || m == 11 {
        30
    } else {
        31
    }
}

/// A day of the Gregorian calendar, extended backwards.
pub open spec fn is_date(y: int, m: int, d: int) -> bool {
    1 <= m <= 12 && 1 <= d <= month_days(y, m)
}

/// Days from 1 January of year 0 to 1 January of year `y`.
pub open spec fn days_to_year(y: int) -> int {
    365 * y + (y + 3) / 4 - (y + 99) / 100 + (y + 399) / 400
}

/// Days from 1 January to the first of month `m`.
pub open spec fn days_to_month(y: int, m: int) -> int
    decreases m,
{
    if m <= 1 {
        0
    } else {
        days_to_month(y, m - 1) + month_days(y, m - 1)
    }
}

/// Days from 1 January 1970 to the given date.
pub open spec fn day_number(y: int, m: int, d: int) -> int {
    days_to_year(y) + days_to_month(y, m) + d - 1 - 719528
}

/// A year lasts 365 days, a leap year one more.
pub proof fn lemma_year_length(y: int)
    ensures
        days_to_year(y + 1) - days_to_year(y) == if is_leap(y) {
            366int
        } else {
            365int
        },
{
    lemma_step(y, 4);
    lemma_step(y, 100);
    lemma_step(y, 400);
    assert(y % 400 == 0 ==> y % 100 == 0);
    assert(y % 100 == 0 ==> y % 4 == 0);
}

/// The rounded-up quotient grows exactly at the multiples of `n`.
proof fn lemma_step(y: int, n: int)
    requires
        n == 4 || n == 100 || n == 400,
    ensures
        (y + 1 + n - 1) / n - (y + n - 1) / n == if y % n == 0 {
            1int
        } else {
            0int
        },
{
    if n == 4 {
        assert((y + 4) / 4 - (y + 3) / 4 == if y % 4 == 0 {
            1int
        } else {
            0int
        });
    } else if n == 100 {
        assert((y + 100) / 100 - (y + 99) / 100 == if y % 100 == 0 {
            1int
        } else {
            0int
        });
    } else {
        assert((y + 400) / 400 - (y + 399) / 400 == if y % 400 == 0 {
            1int
        } else {
            0int
        });
    }
}

/// The calendar repeats every 400 years.
proof fn lemma_cycle(era: int, k: int)
    ensures
        days_to_year(400 * era + k) == 146097 * era + days_to_year(k),
        is_leap(400 * era + k) == is_leap(k),
{
    let y = 400 * era + k;
    assert((y + 3) / 4 == 100 * era + (k + 3) / 4);
    assert((y + 99) / 100 == 4 * era + (k + 99) / 100);
    assert((y + 399) / 400 == era + (k + 399) / 400);
    assert(y % 4 == k % 4);
    assert(y % 100 == k % 100);
    assert(y % 400 == k % 400);
}

proof fn lemma_month_sums(y: int)
    ensures
        forall|m: int| 1 <= m <= 12 ==> days_to_month(y, m) + month_days(y, m) == #[trigger] days_to_month(
            y,
            m + 1,
        ),
        days_to_month(y, 1) == 0,
        days_to_month(y, 13) == if is_leap(y) {
            366int
        } else {
            365int
        },
        forall|m: int, k: int|
            1 <= m <= k <= 13 ==> #[trigger] days_to_month(y, m) <= #[trigger] days_to_month(y, k),
{
    reveal_with_fuel(days_to_month, 14);
}

proof fn lemma_years_grow(a: int, b: int)
    requires
        a <= b,
    ensures
        days_to_year(b) - days_to_year(a) >= 365 * (b - a),
    decreases b - a,
{
    if a < b {
        lemma_year_length(b - 1);
        lemma_years_grow(a, b - 1);
    }
}

/// A date stays within its year.
proof fn lemma_within_year(y: int, m: int, d: int)
    requires
        is_date(y, m, d),
    ensures
        days_to_year(y) <= day_number(y, m, d) + 719528 < days_to_year(y + 1),
{
    lemma_month_sums(y);
    lemma_year_length(y);
    assert(days_to_month(y, m) >= days_to_month(y, 1));
    assert(days_to_month(y, m + 1) <= days_to_month(y, 13));
}

/// Different dates have different day numbers.
pub proof fn lemma_day_number_unique(y: int, m: int, d: int, y2: int, m2: int, d2: int)
    requires
        is_date(y, m, d),
        is_date(y2, m2, d2),
        day_number(y, m, d) == day_number(y2, m2, d2),
    ensures
        y == y2 && m == m2 && d == d2,
{
    lemma_within_year(y, m, d);
    lemma_within_year(y2, m2, d2);
    if y < y2 {
        lemma_years_grow(y + 1, y2);
    } else if y2 < y {
        lemma_years_grow(y2 + 1, y);
    }
    lemma_month_sums(y);
    if m < m2 {
        assert(days_to_month(y, m + 1) <= days_to_month(y, m2));
    } else if m2 < m {
        assert(days_to_month(y, m2 + 1) <= days_to_month(y, m));
    }
}

/// `day_number` goes up by one from a day to the next.
pub proof fn lemma_next_day(y: int, m: int, d: int)
    requires
        is_date(y, m, d),
    ensures
        d < month_days(y, m) ==> day_number(y, m, d + 1) == day_number(y, m, d) + 1,
        d == month_days(y, m) && m < 12 ==> day_number(y, m + 1, 1) == day_number(y, m, d) + 1,
        d == month_days(y, m) && m == 12 ==> day_number(y + 1, 1, 1) == day_number(y, m, d) + 1,
{
    lemma_month_sums(y);
    lemma_month_sums(y + 1);
    lemma_year_length(y);
    assert(days_to_month(y, m) + month_days(y, m) == days_to_month(y, m + 1));
}

/// The day after a date.
pub open spec fn next_date(y: int, m: int, d: int) -> (int, int, int) {
    if d < month_days(y, m) {
        (y, m, d + 1)
    } else if m < 12 {
        (y, m + 1, 1)
    } else {
        (y + 1, 1, 1)
    }
}

/// Day numbers follow the calendar: the date of the next day number is the day
/// after, and day 0 is 1 January 1970.
pub proof fn lemma_days_follow(y: int, m: int, d: int, y2: int, m2: int, d2: int)
    requires
        is_date(y, m, d),
        is_date(y2, m2, d2),
        day_number(y2, m2, d2) == day_number(y, m, d) + 1,
    ensures
        (y2, m2, d2) == next_date(y, m, d),
        day_number(1970, 1, 1) == 0,
{
    lemma_next_day(y, m, d);
    let n = next_date(y, m, d);
    lemma_day_number_unique(n.0, n.1, n.2, y2, m2, d2);
}

fn leap(y: i64) -> (r: bool)
    requires
        y >= 0,
    ensures
        r == is_leap(y as int),
{
    y % 4 == 0 && (y % 100 != 0 || y % 400 == 0)
}

/// Days from 1 January of year 0 to 1 January of year `k`, for `k` in a cycle.
fn cycle_days(k: i64) -> (r: i64)
    requires
        0 <= k <= 400,
    ensures
        r == days_to_year(k as int),
        0 <= r <= 366 * k,
{
    365 * k + (k + 3) / 4 - (k + 99) / 100 + (k + 399) / 400
}

/// The year of a 400-year cycle that holds day `day` of the cycle.
fn year_in_cycle(day: i64) -> (k: i64)
    requires
        0 <= day < 146097,
    ensures
        0 <= k < 400,
        days_to_year(k as int) <= day < days_to_year(k + 1),
{
    // An underestimate, then steps of one.
    let mut k: i64 = day / 366;
    let first = cycle_days(k);
    assert(366 * k <= day);
    assert(days_to_year(400) == 146097);
    while cycle_days(k + 1) <= day
        invariant
            0 <= k < 400,
            0 <= day < 146097,
            days_to_year(400) == 146097,
            days_to_year(k as int) <= day,
        decreases 400 - k,
    {
        k += 1;
    }
    k
}

/// Month and day of the `left`-th day of a year.
fn month_in_year(is_leap_year: bool, left: i64, Ghost(y): Ghost<int>) -> (r: (u32, u32))
    requires
        is_leap_year == is_leap(y),
        0 <= left < days_to_month(y, 13),
    ensures
        is_date(y, r.0 as int, r.1 as int),
        days_to_month(y, r.0 as int) + r.1 - 1 == left,
{
    let mut left: i64 = left;
    let ghost total = left;
    let mut m: u32 = 1;
    let mut len: i64 = 31;
    proof {
        lemma_month_sums(y);
    }
    while left >= len
        invariant
            1 <= m <= 12,
            0 <= left,
            is_leap_year == is_leap(y),
            len == month_days(y, m as int),
            days_to_month(y, m as int) + left == total,
            total < days_to_month(y, 13),
        decreases 13 - m,
    {
        proof {
            lemma_month_sums(y);
            assert(days_to_month(y, m as int) + month_days(y, m as int) == days_to_month(y, m + 1));
        }
        assert(m < 12);
        left = left - len;
        m += 1;
        len = if m == 2 {
            if is_leap_year {
                29
            } else {
                28
            }
        } else if m == 4 || m == 6 || m == 9 || m == 11 {
            30
        } else {
            31
        };
    }
    (m, (left + 1) as u32)
}

/// Days since 1970-01-01 to (year, month, day).
pub fn civil_from_days(z: i64) -> (r: (i64, u32, u32))
    requires
        z <= i64::MAX - 719468,
    ensures
        is_date(r.0 as int, r.1 as int, r.2 as int),
        day_number(r.0 as int, r.1 as int, r.2 as int) == z,
        -0x80_0000_0000_0000 <= r.0 <= 0x80_0000_0000_0000,
{
    let n: i128 = z as i128 + 719528;
    // Whole cycles of 400 years, rounded down.
    let era: i128 = if n >= 0 {
        n / 146097
    } else {
        -((-n + 146096) / 146097)
    };
    let day: i64 = (n - era * 146097) as i64;
    assert(0 <= n - era * 146097 < 146097);
    let k = year_in_cycle(day);
    let y: i64 = (era * 400 + k as i128) as i64;
    let left: i64 = day - cycle_days(k);
    proof {
        lemma_cycle(era as int, k as int);
        lemma_year_length(k as int);
        lemma_month_sums(y as int);
    }
    let (m, d) = month_in_year(leap(k), left, Ghost(y as int));
    (y, m, d)
}

/// A number with zeros in front; the sign of a negative one counts as a place.
pub open spec fn zero_padded(n: int, width: nat) -> Seq<char>
    recommends
        width > 0,
{
    if n < 0 {
        seq!['-'] + pad_left(decimal((-n) as nat), (width - 1) as nat, '0')
    } else {
        pad_left(decimal(n as nat), width, '0')
    }
}

fn zeros(n: i64, width: usize) -> (r: String)
    requires
        width > 0,
        n > i64::MIN,
    ensures
        r@ == zero_padded(n as int, width as nat),
{
    if n < 0 {
        let mut out = String::new();
        out.push('-');
        out.append(pad_left_with(dec((-n) as u128).as_str(), width - 1, '0').as_str());
        assert(out@ =~= zero_padded(n as int, width as nat));
        out
    } else {
        pad_left_with(dec(n as u128).as_str(), width, '0')
    }
}

/// `yyyy-mm-ddThh:mm:ssZ` for a date and the seconds into that day.
pub open spec fn stamp(y: int, m: int, d: int, time: int) -> Seq<char> {
    zero_padded(y, 4) + seq!['-'] + zero_padded(m, 2) + seq!['-'] + zero_padded(d, 2) + seq!['T']
        + zero_padded(time / 3600, 2) + seq![':'] + zero_padded((time % 3600) / 60, 2) + seq![':']
        + zero_padded(time % 60, 2) + seq!['Z']
}

/// Whether `s` is the RFC 3339 text of `secs` seconds after 1970 in UTC.
pub open spec fn is_stamp_of(secs: int, s: Seq<char>) -> bool {
    exists|y: int, m: int, d: int|
        #![trigger is_date(y, m, d)]
        is_date(y, m, d) && day_number(y, m, d) == secs / 86400 && s == stamp(y, m, d, secs % 86400)
}

/// A moment has one timestamp.
pub proof fn lemma_stamp_unique(secs: int, a: Seq<char>, b: Seq<char>)
    requires
        is_stamp_of(secs, a),
        is_stamp_of(secs, b),
    ensures
        a == b,
{
    let (y, m, d) = choose|y: int, m: int, d: int|
        #![trigger is_date(y, m, d)]
        is_date(y, m, d) && day_number(y, m, d) == secs / 86400 && a == stamp(y, m, d, secs % 86400);
    let (y2, m2, d2) = choose|y: int, m: int, d: int|
        #![trigger is_date(y, m, d)]
        is_date(y, m, d) && day_number(y, m, d) == secs / 86400 && b == stamp(y, m, d, secs % 86400);
    lemma_day_number_unique(y, m, d, y2, m2, d2);
}

/// RFC 3339 in UTC.
pub fn iso_timestamp(secs: i64) -> (r: String)
    ensures
        is_stamp_of(secs as int, r@),
{
    let wide: i128 = secs as i128;
    let days: i64 = if secs >= 0 {
        secs / 86400
    } else {
        (-((-wide + 86399) / 86400)) as i64
    };
    let time: i64 = (wide - (days as i128) * 86400) as i64;
    assert(days == secs as int / 86400 && time == secs as int % 86400);
    let (y, m, d) = civil_from_days(days);
    let mut out = zeros(y, 4);
    out.push('-');
    out.append(zeros(m as i64, 2).as_str());
    out.push('-');
    out.append(zeros(d as i64, 2).as_str());
    out.push('T');
    out.append(zeros(time / 3600, 2).as_str());
    out.push(':');
    out.append(zeros((time % 3600) / 60, 2).as_str());
    out.push(':');
    out.append(zeros(time % 60, 2).as_str());
    out.push('Z');
    assert(out@ =~= stamp(y as int, m as int, d as int, time as int));
    assert(is_date(y as int, m as int, d as int));
    out
}

} // verus!
