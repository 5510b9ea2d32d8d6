//! Timestamps as they are written.

use vstd::prelude::*;

use crate::http::calendar::{day_number, is_date, month_days, stamp, zero_padded};
use crate::laws::numbers::lemma_decimals_read_back;
use crate::text::{decimal, digits_value, pad_left};

verus! {

proof fn lemma_leading_zero(s: Seq<char>)
    requires
        digits_value(s) is Some,
    ensures
        digits_value(seq!['0'] + s) == digits_value(s),
    decreases s.len(),
{
    let z = seq!['0'] + s;
    assert(z.last() == s.last());
    if s.len() > 1 {
        assert(z.drop_last() =~= seq!['0'] + s.drop_last());
        lemma_leading_zero(s.drop_last());
    } else {
        assert(z.drop_last() =~= seq!['0']);
        assert(digits_value(seq!['0']) == Some(0nat));
    }
}

proof fn lemma_padded(s: Seq<char>, width: nat)
    requires
        digits_value(s) is Some,
        s.len() <= width,
    ensures
        pad_left(s, width, '0').len() == width,
        digits_value(pad_left(s, width, '0')) == digits_value(s),
    decreases width - s.len(),
{
    if s.len() < width {
        lemma_leading_zero(s);
        lemma_padded(seq!['0'] + s, width);
    }
}

proof fn lemma_two_digits(n: int)
    requires
        0 <= n < 100,
    ensures
        zero_padded(n, 2).len() == 2,
        digits_value(zero_padded(n, 2)) == Some(n as nat),
{
    lemma_decimals_read_back(n as nat);
    let m = n as nat;
    if m >= 10 {
        assert(decimal(m / 10).len() == 1);
    }
    lemma_padded(decimal(m), 2);
}

proof fn lemma_four_digits(n: int)
    requires
        0 <= n < 10000,
    ensures
        zero_padded(n, 4).len() == 4,
        digits_value(zero_padded(n, 4)) == Some(n as nat),
{
    lemma_decimals_read_back(n as nat);
    let m = n as nat;
    if m >= 10 {
        if m / 10 >= 10 {
            if m / 10 / 10 >= 10 {
                assert(decimal(m / 10 / 10 / 10).len() == 1);
            }
            assert(decimal(m / 10 / 10).len() <= 2);
        }
        assert(decimal(m / 10).len() <= 3);
    }
    lemma_padded(decimal(m), 4);
}

/// A timestamp reads `yyyy-mm-ddThh:mm:ssZ`: each part, read back, is the year, the
/// month, the day, the hour, the minute or the second.
pub proof fn lemma_stamps(y: int, m: int, d: int, time: int)
    requires
        0 <= y <= 9999,
        is_date(y, m, d),
        0 <= time < 86400,
    ensures
        ({
            let s = stamp(y, m, d, time);
            &&& s.len() == 20
            &&& s[4] == '-' && s[7] == '-' && s[10] == 'T' && s[13] == ':' && s[16] == ':' && s[19]
                == 'Z'
            &&& digits_value(s.subrange(0, 4)) == Some(y as nat)
            &&& digits_value(s.subrange(5, 7)) == Some(m as nat)
            &&& digits_value(s.subrange(8, 10)) == Some(d as nat)
            &&& digits_value(s.subrange(11, 13)) == Some((time / 3600) as nat)
            &&& digits_value(s.subrange(14, 16)) == Some(((time % 3600) / 60) as nat)
            &&& digits_value(s.subrange(17, 19)) == Some((time % 60) as nat)
        }),
{
    lemma_clock(time);
    lemma_four_digits(y);
    lemma_two_digits(m);
    lemma_two_digits(d);
    lemma_two_digits(time / 3600);
    lemma_two_digits((time % 3600) / 60);
    lemma_two_digits(time % 60);
    lemma_layout(
        zero_padded(y, 4),
        zero_padded(m, 2),
        zero_padded(d, 2),
        zero_padded(time / 3600, 2),
        zero_padded((time % 3600) / 60, 2),
        zero_padded(time % 60, 2),
    );
}

proof fn lemma_clock(time: int)
    requires
        0 <= time < 86400,
    ensures
        0 <= time / 3600 < 24,
        0 <= (time % 3600) / 60 < 60,
        0 <= time % 60 < 60,
{
}

proof fn lemma_layout(
    a: Seq<char>,
    b: Seq<char>,
    c: Seq<char>,
    d: Seq<char>,
    e: Seq<char>,
    f: Seq<char>,
)
    requires
        a.len() == 4,
        b.len() == 2 && c.len() == 2 && d.len() == 2 && e.len() == 2 && f.len() == 2,
    ensures
        ({
            let s = a + seq!['-'] + b + seq!['-'] + c + seq!['T'] + d + seq![':'] + e + seq![':'] + f
                + seq!['Z'];
            &&& s.len() == 20
            &&& s[4] == '-' && s[7] == '-' && s[10] == 'T' && s[13] == ':' && s[16] == ':' && s[19]
                == 'Z'
            &&& s.subrange(0, 4) == a
            &&& s.subrange(5, 7) == b
            &&& s.subrange(8, 10) == c
            &&& s.subrange(11, 13) == d
            &&& s.subrange(14, 16) == e
            &&& s.subrange(17, 19) == f
        }),
{
    let s = a + seq!['-'] + b + seq!['-'] + c + seq!['T'] + d + seq![':'] + e + seq![':'] + f
        + seq!['Z'];
    assert(s.subrange(0, 4) =~= a);
    assert(s.subrange(5, 7) =~= b);
    assert(s.subrange(8, 10) =~= c);
    assert(s.subrange(11, 13) =~= d);
    assert(s.subrange(14, 16) =~= e);
    assert(s.subrange(17, 19) =~= f);
}

/// Days are counted from the first of January 1970.
pub proof fn lemma_first_day()
    ensures
        day_number(1970, 1, 1) == 0,
{
}

/// How long each month is; the second is a day longer in a leap year.
pub proof fn lemma_month_lengths(y: int, m: int)
    requires
        1 <= m <= 12,
    ensures
        m == 1 || m == 3 || m == 5 || m == 7 || m == 8 || m == 10 || m == 12 ==> month_days(y, m) == 31,
        m == 4 || m == 6 || m == 9 || m == 11 ==> month_days(y, m) == 30,
        m == 2 && y % 400 == 0 ==> month_days(y, m) == 29,
        m == 2 && y % 100 == 0 && y % 400 != 0 ==> month_days(y, m) == 28,
        m == 2 && y % 4 == 0 && y % 100 != 0 ==> month_days(y, m) == 29,
        m == 2 && y % 4 != 0 ==> month_days(y, m) == 28,
{
}

} // verus!
