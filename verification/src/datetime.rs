//! Calendar arithmetic for the timestamps written into bootupd metadata.

use vstd::prelude::*;

verus! {

/// Whether a year of the proleptic Gregorian calendar has a 29th of February.
pub open spec fn is_leap(y: int) -> bool {
    y % 4 == 0 && (y % 100 != 0 || y % 400 == 0)
}

/// The number of days of month `m` (1 to 12) of year `y`.
pub open spec fn month_len(y: int, m: int) -> int {
    if m == 2 {
        if is_leap(y) {
            29
        } else {
            28
        }
    } else if m == 4 || m == 6 || m == 9 || m == 11 {
        30
    } else {
        31
    }
}

/// Whether (y, m, d) is a date of the proleptic Gregorian calendar.
pub open spec fn valid_date(y: int, m: int, d: int) -> bool {
    1 <= m <= 12 && 1 <= d <= month_len(y, m)
}

/// The number of days from 1970-01-01 to the date (y, m, d): the
/// days-from-civil count, reckoned in 400-year eras of years that start in
/// March.
pub open spec fn days_from_civil(y: int, m: int, d: int) -> int {
    let y2 = if m <= 2 {
        y - 1
    } else {
        y
    };
    let era = y2 / 400;
    let yoe = y2 - era * 400;
    let mp = if m > 2 {
        m - 3
    } else {
        m + 9
    };
    let doy = (153 * mp + 2) / 5 + d - 1;
    let doe = yoe * 365 + yoe / 4 - yoe / 100 + doy;
    era * 146097 + doe - 719468
}

/// The day of the 400-year era on which March-based year `k` starts.
pub open spec fn year_start(k: int) -> int {
    365 * k + k / 4 - k / 100 + k / 400
}

/// The year of the era (counted from 0, years starting in March) that
/// the day `doe` of the era falls in.
pub open spec fn year_of_era(doe: u32) -> u32 {
    ((doe - doe / 1460 + doe / 36524 - doe / 146096) / 365) as u32
}

/// A day of an era falls in the year the formula gives.
proof fn lemma_year_of_era(doe: u32)
    requires
        doe <= 146096,
    ensures
        year_of_era(doe) <= 399,
        year_start(year_of_era(doe) as int) <= doe,
        doe < year_start(year_of_era(doe) + 1),
{
    assert(year_of_era(doe) <= 399 && 365 * year_of_era(doe) + year_of_era(doe) / 4 - year_of_era(
        doe,
    ) / 100 <= doe && (year_of_era(doe) == 399 || doe < 365 * (year_of_era(doe) + 1) + (
    year_of_era(doe) + 1) / 4 - (year_of_era(doe) + 1) / 100)) by (bit_vector)
        requires
            doe <= 146096,
    ;
}

} // verus!

verus! {

/// The date of the day `days` days after 1970-01-01, as computed by
/// splitting the count into 400-year eras of March-based years.
pub open spec fn civil(days: int) -> (int, int, int) {
    let z = days + 719468;
    let era = z / 146097;
    let doe = z - era * 146097;
    let yoe = year_of_era(doe as u32) as int;
    let doy = doe - (365 * yoe + yoe / 4 - yoe / 100);
    let mp = (5 * doy + 2) / 153;
    let d = doy - (153 * mp + 2) / 5 + 1;
    let m = if mp < 10 {
        mp + 3
    } else {
        mp - 9
    };
    let y = yoe + era * 400 + if m <= 2 {
        1int
    } else {
        0int
    };
    (y, m, d)
}

proof fn lemma_year_len(k: int)
    requires
        0 <= k <= 399,
    ensures
        year_start(k + 1) - year_start(k) == if is_leap(k + 1) {
            366int
        } else {
            365int
        },
{
    assert(year_start(k + 1) - year_start(k) == if is_leap(k + 1) {
        366int
    } else {
        365int
    }) by (nonlinear_arith)
        requires
            0 <= k <= 399,
    ;
}

proof fn lemma_leap_period(a: int, e: int)
    ensures
        is_leap(a + e * 400) == is_leap(a),
{
    assert((a + e * 400) % 4 == a % 4) by (nonlinear_arith);
    assert((a + e * 400) % 100 == a % 100) by (nonlinear_arith);
    assert((a + e * 400) % 400 == a % 400) by (nonlinear_arith);
}

/// Splitting a day of a March-based year into month and day.
proof fn lemma_month_of_year(doy: int, leap: bool)
    requires
        0 <= doy <= if leap {
            365int
        } else {
            364int
        },
    ensures
        ({
            let mp = (5 * doy + 2) / 153;
            let d = doy - (153 * mp + 2) / 5 + 1;
            &&& 0 <= mp <= 11
            &&& 1 <= d
            &&& mp == 11 ==> d <= if leap {
                29int
            } else {
                28int
            }
            &&& (mp == 1 || mp == 3 || mp == 6 || mp == 8) ==> d <= 30
            &&& d <= 31
        }),
{
    let mp = (5 * doy + 2) / 153;
    assert(0 <= mp <= 11);
    assert(153 * mp <= 5 * doy + 2 < 153 * mp + 153);
    assert((153 * mp + 2) / 5 <= doy);
    if mp == 0 {
        assert(doy <= 30);
    } else if mp == 1 {
        assert(31 <= doy <= 60);
    } else if mp == 2 {
        assert(61 <= doy <= 91);
    } else if mp == 3 {
        assert(92 <= doy <= 121);
    } else if mp == 4 {
        assert(122 <= doy <= 152);
    } else if mp == 5 {
        assert(153 <= doy <= 183);
    } else if mp == 6 {
        assert(184 <= doy <= 213);
    } else if mp == 7 {
        assert(214 <= doy <= 244);
    } else if mp == 8 {
        assert(245 <= doy <= 274);
    } else if mp == 9 {
        assert(275 <= doy <= 305);
    } else if mp == 10 {
        assert(306 <= doy <= 336);
    } else {
        assert(337 <= doy);
    }
}

/// The computed date is a valid date, and it is the date `days` days after
/// 1970-01-01.
pub proof fn lemma_civil(days: int)
    ensures
        valid_date(civil(days).0, civil(days).1, civil(days).2),
        days_from_civil(civil(days).0, civil(days).1, civil(days).2) == days,
{
    let z = days + 719468;
    let era = z / 146097;
    let doe = z - era * 146097;
    assert(0 <= doe < 146097);
    lemma_year_of_era(doe as u32);
    let yoe = year_of_era(doe as u32) as int;
    lemma_year_len(yoe);
    let leap = is_leap(yoe + 1);
    let doy = doe - (365 * yoe + yoe / 4 - yoe / 100);
    assert(yoe / 400 == 0);
    assert(0 <= doy <= if leap {
        365int
    } else {
        364int
    });
    lemma_month_of_year(doy, leap);
    let mp = (5 * doy + 2) / 153;
    let d = doy - (153 * mp + 2) / 5 + 1;
    let m = if mp < 10 {
        mp + 3
    } else {
        mp - 9
    };
    let y = yoe + era * 400 + if m <= 2 {
        1int
    } else {
        0int
    };
    assert(civil(days) == (y, m, d));
    if m == 2 {
        lemma_leap_period(yoe + 1, era);
        assert(y == (yoe + 1) + era * 400);
    }
    let y2 = if m <= 2 {
        y - 1
    } else {
        y
    };
    assert(y2 == yoe + era * 400);
    assert(y2 / 400 == era) by (nonlinear_arith)
        requires
            y2 == yoe + era * 400,
            0 <= yoe <= 399,
    ;
}

} // verus!

verus! {

/// The year of the date `days` days after 1970-01-01.
pub open spec fn civil_year(days: int) -> int {
    civil(days).0
}

/// Convert days since 1970-01-01 to (year, month, day): the calendar date
/// whose day count is `days`. The year is returned as an `i32`, truncated
/// when it does not fit.
pub fn civil_from_days(days: i64) -> (r: (i32, u32, u32))
    requires
        i64::MIN + 146096 - 719468 <= days <= i64::MAX - 719468,
    ensures
        r.0 == civil_year(days as int) as i32,
        r.1 == civil(days as int).1,
        r.2 == civil(days as int).2,
        valid_date(civil_year(days as int), r.1 as int, r.2 as int),
        days_from_civil(civil_year(days as int), r.1 as int, r.2 as int) == days,
{
    proof {
        lemma_civil(days as int);
    }
    let z: i64 = days + 719468;
    let era: i64 = if z >= 0 {
        z / 146097
    } else {
        (z - 146096) / 146097
    };
    assert(era == z / 146097);
    let doe = (z - era * 146097) as u32;
    proof {
        lemma_year_of_era(doe);
    }
    let yoe = (doe - doe / 1460 + doe / 36524 - doe / 146096) / 365;
    assert(yoe == year_of_era(doe));
    let y = yoe as i64 + era * 400;
    let doy = doe - (365 * yoe + yoe / 4 - yoe / 100);
    let mp = (5 * doy + 2) / 153;
    let d = doy - (153 * mp + 2) / 5 + 1;
    let m = if mp < 10 {
        mp + 3
    } else {
        mp - 9
    };
    let y = if m <= 2 {
        y + 1
    } else {
        y
    };
    assert(civil(days as int) == (y as int, m as int, d as int));
    (#[verifier::truncate] (y as i32), m, d)
}

} // verus!

verus! {

/// The decimal digit for `n` (0 to 9).
pub open spec fn digit_char(n: int) -> char {
    if n == 0 {
        '0'
    } else if n == 1 {
        '1'
    } else if n == 2 {
        '2'
    } else if n == 3 {
        '3'
    } else if n == 4 {
        '4'
    } else if n == 5 {
        '5'
    } else if n == 6 {
        '6'
    } else if n == 7 {
        '7'
    } else if n == 8 {
        '8'
    } else {
        '9'
    }
}

/// The decimal digits of `n`, without leading zeros.
pub open spec fn decimal(n: nat) -> Seq<char>
    decreases n,
{
    if n < 10 {
        seq![digit_char(n as int)]
    } else {
        decimal(n / 10).push(digit_char((n % 10) as int))
    }
}

/// `s` preceded by enough zeros to be at least `w` long.
pub open spec fn zero_pad(s: Seq<char>, w: int) -> Seq<char> {
    if s.len() >= w {
        s
    } else {
        Seq::new((w - s.len()) as nat, |i: int| '0') + s
    }
}

/// An integer written in decimal, zero-padded to width `w` after its sign
/// (as `{:0w}` writes it).
pub open spec fn padded(v: int, w: int) -> Seq<char> {
    if v < 0 {
        seq!['-'] + zero_pad(decimal((-v) as nat), w - 1)
    } else {
        zero_pad(decimal(v as nat), w)
    }
}

fn digit_text(n: u64) -> (r: &'static str)
    requires
        n < 10,
    ensures
        r@ == seq![digit_char(n as int)],
{
    proof {
        reveal_strlit("0");
        reveal_strlit("1");
        reveal_strlit("2");
        reveal_strlit("3");
        reveal_strlit("4");
        reveal_strlit("5");
        reveal_strlit("6");
        reveal_strlit("7");
        reveal_strlit("8");
        reveal_strlit("9");
    }
    if n == 0 {
        "0"
    } else if n == 1 {
        "1"
    } else if n == 2 {
        "2"
    } else if n == 3 {
        "3"
    } else if n == 4 {
        "4"
    } else if n == 5 {
        "5"
    } else if n == 6 {
        "6"
    } else if n == 7 {
        "7"
    } else if n == 8 {
        "8"
    } else {
        "9"
    }
}

/// Append the decimal digits of `n`.
fn push_decimal(out: &mut String, n: u64)
    ensures
        final(out)@ == old(out)@ + decimal(n as nat),
    decreases n,
{
    if n >= 10 {
        push_decimal(out, n / 10);
    }
    out.append(digit_text(n % 10));
    proof {
        if n >= 10 {
            assert(decimal(n as nat) == decimal((n / 10) as nat).push(digit_char((n % 10) as int)));
        }
    }
    assert(out@ =~= old(out)@ + decimal(n as nat));
}

/// Append `v` written in decimal, zero-padded to width `w` after its sign.
fn push_padded(out: &mut String, v: i64, w: u64)
    requires
        v > i64::MIN,
        w <= 20,
    ensures
        final(out)@ == old(out)@ + padded(v as int, w as int),
{
    let ghost start = out@;
    let mag: u64 = if v < 0 {
        (-v) as u64
    } else {
        v as u64
    };
    let width: u64 = if v < 0 {
        out.append("-");
        proof {
            reveal_strlit("-");
        }
        if w > 0 {
            w - 1
        } else {
            0
        }
    } else {
        w
    };
    let ghost after_sign = out@;
    let mut digits = String::new();
    push_decimal(&mut digits, mag);
    let len = digits.as_str().unicode_len();
    let mut k: usize = len;
    while (k as u64) < width
        invariant
            len <= k,
            (k as u64) <= width || k == len,
            width <= 20,
            len == digits@.len(),
            out@ == after_sign + Seq::new((k - len) as nat, |i: int| '0'),
        decreases width - k as u64,
    {
        out.append("0");
        proof {
            reveal_strlit("0");
        }
        assert(out@ =~= after_sign + Seq::new((k + 1 - len) as nat, |i: int| '0'));
        k = k + 1;
    }
    out.append(digits.as_str());
    assert(out@ =~= start + padded(v as int, w as int));
}

} // verus!

verus! {

/// The ISO 8601 UTC text of the time `secs` seconds after the epoch:
/// `YYYY-MM-DDTHH:MM:SSZ`.
pub open spec fn timestamp_text(secs: nat) -> Seq<char> {
    let days = secs / 86400;
    let rem: int = (secs % 86400) as int;
    let (y, mo, d) = civil(days as int);
    padded((y as i32) as int, 4) + seq!['-'] + padded(mo, 2) + seq!['-'] + padded(d, 2) + seq!['T']
        + padded(rem / 3600, 2) + seq![':'] + padded((rem % 3600) / 60, 2) + seq![':'] + padded(
        rem % 60,
        2,
    ) + seq!['Z']
}

/// UTC timestamp in ISO 8601 format for bootupd JSON metadata, for the
/// time `secs` seconds after the epoch.
pub fn utc_timestamp(secs: u64) -> (r: String)
    ensures
        r@ == timestamp_text(secs as nat),
{
    let days = secs / 86400;
    let remaining = secs % 86400;
    let h = remaining / 3600;
    let m = (remaining % 3600) / 60;
    let s = remaining % 60;
    let (y, mo, d) = civil_from_days(days as i64);
    proof {
        reveal_strlit("-");
        reveal_strlit("T");
        reveal_strlit(":");
        reveal_strlit("Z");
    }
    assert(days as int == secs as nat / 86400);
    assert(remaining as int == (secs as nat % 86400) as int);
    let mut out = String::new();
    push_padded(&mut out, y as i64, 4);
    out.append("-");
    push_padded(&mut out, mo as i64, 2);
    out.append("-");
    push_padded(&mut out, d as i64, 2);
    out.append("T");
    push_padded(&mut out, h as i64, 2);
    out.append(":");
    push_padded(&mut out, m as i64, 2);
    out.append(":");
    push_padded(&mut out, s as i64, 2);
    out.append("Z");
    assert(out@ =~= timestamp_text(secs as nat));
    out
}

} // verus!
