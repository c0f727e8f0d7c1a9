//! UNIX seconds to proleptic Gregorian civil time (UTC).
use vstd::prelude::*;

use crate::text::{decimal, decimal_chars, push_chars, push_str_chars, string_of};

verus! {

/// A leap year of the Gregorian calendar.
pub open spec fn is_leap_year(y: int) -> bool {
    (y % 4 == 0 && y % 100 != 0) || y % 400 == 0
}

/// Days in year `y`.
pub open spec fn days_in_year(y: int) -> int {
    if is_leap_year(y) {
        366
    } else {
        365
    }
}

/// Days in month `m` (1 = January) of year `y`.
pub open spec fn days_in_month(y: int, m: int) -> int {
    if m == 2 {
        if is_leap_year(y) {
            29
        } else {
            28
        }
    } else if m == 4 || m == 6 || m == 9 || m == 11 {
        30
    } else {
        31
    }
}

/// Days from 1970-01-01 to January 1st of year `1970 + k`.
pub open spec fn days_before_year(k: nat) -> int
    decreases k,
{
    if k == 0 {
        0
    } else {
        days_before_year((k - 1) as nat) + days_in_year(1970 + k - 1)
    }
}

/// Days from January 1st of year `y` to the first of month `m`.
pub open spec fn days_before_month(y: int, m: int) -> int
    decreases m,
{
    if m <= 1 {
        0
    } else {
        days_before_month(y, m - 1) + days_in_month(y, m - 1)
    }
}

/// A calendar date from 1970 on.
pub open spec fn is_date(y: int, m: int, d: int) -> bool {
    y >= 1970 && 1 <= m <= 12 && 1 <= d <= days_in_month(y, m)
}

/// Days from 1970-01-01 to the date.
pub open spec fn unix_day(y: int, m: int, d: int) -> int {
    days_before_year((y - 1970) as nat) + days_before_month(y, m) + d - 1
}

/// `(y, m, d)` is the date `day` days after 1970-01-01, its year taken modulo
/// 2^32 into an `i32`.
pub open spec fn is_civil_date_of(day: int, y: i32, m: u32, d: u32) -> bool {
    exists|year: int|
        #![trigger unix_day(year, m as int, d as int)]
        is_date(year, m as int, d as int) && unix_day(year, m as int, d as int) == day && y
            == year as i32
}

// ---------------------------------------------------------------------------
// Arithmetic lemmas.
// ---------------------------------------------------------------------------

/// Leap days among years `1..=n` (for `n >= 0`).
pub open spec fn leaps_upto(n: int) -> int {
    n / 4 - n / 100 + n / 400
}

proof fn lemma_leaps_step(y: int)
    requires
        y >= 1,
    ensures
        leaps_upto(y) == leaps_upto(y - 1) + if is_leap_year(y) {
            1int
        } else {
            0int
        },
{
}

proof fn lemma_days_before_year(k: nat)
    ensures
        days_before_year(k) == 365 * k + leaps_upto((1969 + k) as int) - leaps_upto(1969),
    decreases k,
{
    if k > 0 {
        lemma_days_before_year((k - 1) as nat);
        lemma_leaps_step((1969 + k) as int);
    }
}

/// Days from March 1st of year 0 to March 1st of year `y`.
pub open spec fn days_from_march0(y: int) -> int {
    365 * y + y / 4 - y / 100 + y / 400
}

/// Days before the first of a March-based month `mp` (0 = March, 11 = February).
pub open spec fn march_month_start(mp: int) -> int {
    (153 * mp + 2) / 5
}

proof fn lemma_month_starts(y: int)
    ensures
        days_before_month(y, 1) == 0,
        days_before_month(y, 2) == 31,
        forall|m: int|
            3 <= m <= 12 ==> #[trigger] days_before_month(y, m) == 59 + (if is_leap_year(y) {
                1int
            } else {
                0int
            }) + march_month_start(m - 3),
        march_month_start(10) == 306,
        march_month_start(11) == 337,
{
    reveal_with_fuel(days_before_month, 13);
    assert(march_month_start(0) == 0);
    assert(march_month_start(1) == 31);
    assert(march_month_start(2) == 61);
    assert(march_month_start(3) == 92);
    assert(march_month_start(4) == 122);
    assert(march_month_start(5) == 153);
    assert(march_month_start(6) == 184);
    assert(march_month_start(7) == 214);
    assert(march_month_start(8) == 245);
    assert(march_month_start(9) == 275);
    assert(march_month_start(10) == 306);
    assert(march_month_start(11) == 337);
}

/// The year-of-era step of the civil algorithm finds the March-based year
/// that holds day `doe` of a 400-year era.
proof fn lemma_year_of_era(doe: u32)
    by (bit_vector)
    requires
        doe < 146097,
    ensures
        ({
            let yoe = (doe - doe / 1460 + doe / 36524 - doe / 146096) / 365;
            let base = 365 * yoe + yoe / 4 - yoe / 100;
            &&& yoe < 400
            &&& base <= doe
            &&& (doe - base < 365 || (doe - base == 365 && (yoe + 1) % 4 == 0 && ((yoe + 1) % 100
                != 0 || yoe + 1 == 400)))
        }),
{
}

/// The month step of the civil algorithm finds the March-based month and day.
proof fn lemma_month_of_year(doy: u32)
    by (bit_vector)
    requires
        doy < 366,
    ensures
        ({
            let mp = (5 * doy + 2) / 153;
            &&& mp < 12
            &&& (153 * mp + 2) / 5 <= doy
            &&& doy - (153 * mp + 2) / 5 < (if mp == 11 {
                29u32
            } else if mp == 1 || mp == 3 || mp == 6 || mp == 8 {
                30u32
            } else {
                31u32
            })
            &&& (mp == 11 && doy - (153 * mp + 2) / 5 == 28) ==> doy == 365
        }),
{
}


proof fn lemma_march_era(yoe: int, era: int)
    requires
        0 <= yoe < 400,
        era >= 0,
    ensures
        days_from_march0(yoe + 400 * era) == 365 * yoe + yoe / 4 - yoe / 100 + 146097 * era,
{
    assert((yoe + 400 * era) / 4 == yoe / 4 + 100 * era);
    assert((yoe + 400 * era) / 100 == yoe / 100 + 4 * era);
    assert((yoe + 400 * era) / 400 == era);
}

/// The March-based year `ym` with day-of-year `doy` of the civil algorithm
/// is the calendar date the algorithm returns.
proof fn lemma_march_to_civil(z: int, ym: int, mp: int, dd: int)
    requires
        z >= 719468,
        ym >= 1969,
        0 <= mp < 12,
        0 <= dd,
        z == days_from_march0(ym) + march_month_start(mp) + dd,
        ym == 1969 ==> mp >= 10,
    ensures
        ({
            let m = if mp < 10 { mp + 3 } else { mp - 9 };
            let y = if m <= 2 { ym + 1 } else { ym };
            &&& y >= 1970
            &&& unix_day(y, m, dd + 1) == z - 719468
        }),
{
    let m = if mp < 10 { mp + 3 } else { mp - 9 };
    let y = if m <= 2 { ym + 1 } else { ym };
    lemma_month_starts(y);
    lemma_days_before_year((y - 1970) as nat);
    lemma_leaps_step(y);
    if m <= 2 {
        assert(y - 1 == ym);
    } else {
        assert(days_before_month(y, m) == 59 + (if is_leap_year(y) { 1int } else { 0int })
            + march_month_start(m - 3));
    }
}

/// The date steps of the civil algorithm, from the day count `days` to the
/// March-based year, month and day.
proof fn lemma_civil_steps(days: u64, era: u64, doe: u64, yoe: u64, doy: u64, mp: u64)
    requires
        days <= u64::MAX / 86400,
        era == (days + 719468) / 146097,
        doe == (days + 719468) % 146097,
        yoe == (doe - doe / 1460 + doe / 36524 - doe / 146096) / 365,
        doy == doe - (365 * yoe + yoe / 4 - yoe / 100),
        mp == (5 * doy + 2) / 153,
    ensures
        yoe < 400,
        doy < 366,
        mp < 12,
        (153 * mp + 2) / 5 <= doy,
        ({
            let ym = yoe + 400 * era;
            let dd = doy - (153 * mp + 2) / 5;
            let m = if mp < 10 { mp + 3 } else { mp - 9 };
            let y = if m <= 2 { ym + 1 } else { ym };
            is_date(y, m as int, dd + 1) && unix_day(y, m as int, dd + 1) == days
        }),
{
    let d32 = doe as u32;
    assert(d32 == doe);
    lemma_year_of_era(d32);
    assert(yoe < 400);
    let base = 365 * yoe + yoe / 4 - yoe / 100;
    assert(doy < 366);
    let y32 = doy as u32;
    assert(y32 == doy);
    lemma_month_of_year(y32);
    let ym = yoe + 400 * era;
    let dd = doy - (153 * mp + 2) / 5;
    lemma_march_era(yoe as int, era as int);
    let z = days + 719468;
    assert(z == days_from_march0(ym) + march_month_start(mp as int) + dd);
    assert(ym >= 1969 && (ym == 1969 ==> mp >= 10)) by {
        assert(era >= 4);
        if era == 4 {
            assert(doe >= 135080);
            assert(yoe >= 369);
            if yoe == 369 {
                assert(doy >= 306);
            }
        }
    }
    lemma_march_to_civil(z as int, ym, mp as int, dd);
    let m = if mp < 10 { mp + 3 } else { mp - 9 };
    let y = if m <= 2 { ym + 1 } else { ym };
    assert(1 <= m <= 12);
    assert(dd + 1 <= days_in_month(y, m as int)) by {
        if mp == 11 && dd == 28 {
            assert(doy == 365);
            assert(doe - base == 365);
            assert(is_leap_year(y));
        }
    }
}

/// Calendar fields of a count of UNIX seconds, in UTC: year, month (1 to 12),
/// day (1 to 31), hour, minute and second. The year is taken modulo 2^32.
pub fn civil_from_unix(secs: u64) -> (r: (i32, u32, u32, u32, u32, u32))
    ensures
        r.3 as int == (secs % 86400) / 3600,
        r.4 as int == (secs % 3600) / 60,
        r.5 as int == secs % 60,
        is_civil_date_of((secs / 86400) as int, r.0, r.1, r.2),
{
    let s: u32 = (secs % 86400) as u32;
    let h: u32 = s / 3600;
    let mi: u32 = (s % 3600) / 60;
    let sec: u32 = s % 60;
    assert((secs % 86400) % 3600 == secs % 3600);
    assert((secs % 86400) % 60 == secs % 60);
    let days: u64 = secs / 86400;
    let z: u64 = days + 719468;
    let era: u64 = z / 146097;
    let doe: u64 = z % 146097;
    let yoe: u64 = (doe - doe / 1460 + doe / 36524 - doe / 146096) / 365;
    let ghost base_doy: int = doe - (365 * yoe + yoe / 4 - yoe / 100);
    let ghost base_mp: int = (5 * base_doy + 2) / 153;
    proof {
        lemma_civil_steps(days, era, doe, yoe, base_doy as u64, base_mp as u64);
    }
    let doy: u64 = doe - (365 * yoe + yoe / 4 - yoe / 100);
    let mp: u64 = (5 * doy + 2) / 153;
    let d: u32 = (doy - (153 * mp + 2) / 5 + 1) as u32;
    let m: u32 = if mp < 10 {
        (mp + 3) as u32
    } else {
        (mp - 9) as u32
    };
    let y_march: i64 = (yoe + era * 400) as i64;
    let y: i64 = if m <= 2 {
        y_march + 1
    } else {
        y_march
    };
    assert(is_date(y as int, m as int, d as int) && unix_day(y as int, m as int, d as int)
        == days);
    (y as i32, m, d, h, mi, sec)
}


proof fn lemma_days_before_month_mono(y: int, m1: int, m2: int)
    requires
        1 <= m1 <= m2 <= 13,
    ensures
        days_before_month(y, m1) <= days_before_month(y, m2),
    decreases m2 - m1,
{
    if m1 < m2 {
        lemma_days_before_month_mono(y, m1, m2 - 1);
    }
}

proof fn lemma_days_before_year_mono(k1: nat, k2: nat)
    requires
        k1 <= k2,
    ensures
        days_before_year(k1) <= days_before_year(k2),
    decreases k2 - k1,
{
    if k1 < k2 {
        lemma_days_before_year_mono(k1, (k2 - 1) as nat);
    }
}

/// The day of a date within its year lies in `0..days_in_year(y)`.
proof fn lemma_day_of_year_bounds(y: int, m: int, d: int)
    requires
        is_date(y, m, d),
    ensures
        0 <= days_before_month(y, m) + d - 1 < days_in_year(y),
{
    reveal_with_fuel(days_before_month, 13);
    lemma_days_before_month_mono(y, 1, m);
    lemma_days_before_month_mono(y, m + 1, 13);
    assert(days_before_month(y, m + 1) == days_before_month(y, m) + days_in_month(y, m));
}

/// Distinct dates have distinct day numbers, so the date `civil_from_unix`
/// returns for a day is the only one.
pub proof fn law_unix_day_injective(y1: int, m1: int, d1: int, y2: int, m2: int, d2: int)
    requires
        is_date(y1, m1, d1),
        is_date(y2, m2, d2),
        unix_day(y1, m1, d1) == unix_day(y2, m2, d2),
    ensures
        y1 == y2 && m1 == m2 && d1 == d2,
{
    lemma_day_of_year_bounds(y1, m1, d1);
    lemma_day_of_year_bounds(y2, m2, d2);
    if y1 < y2 {
        lemma_days_before_year_mono((y1 + 1 - 1970) as nat, (y2 - 1970) as nat);
        assert(days_before_year((y1 + 1 - 1970) as nat) == days_before_year((y1 - 1970) as nat)
            + days_in_year(y1));
    } else if y2 < y1 {
        lemma_days_before_year_mono((y2 + 1 - 1970) as nat, (y1 - 1970) as nat);
        assert(days_before_year((y2 + 1 - 1970) as nat) == days_before_year((y2 - 1970) as nat)
            + days_in_year(y2));
    } else {
        if m1 < m2 {
            lemma_days_before_month_mono(y1, m1 + 1, m2);
            assert(days_before_month(y1, m1 + 1) == days_before_month(y1, m1) + days_in_month(
                y1,
                m1,
            ));
        } else if m2 < m1 {
            lemma_days_before_month_mono(y1, m2 + 1, m1);
            assert(days_before_month(y1, m2 + 1) == days_before_month(y1, m2) + days_in_month(
                y1,
                m2,
            ));
        }
    }
}


// ---------------------------------------------------------------------------
// ISO-8601 text.
// ---------------------------------------------------------------------------

/// `n` zero digits.
pub open spec fn zeros(n: nat) -> Seq<char> {
    Seq::new(n, |i: int| '0')
}

/// Digits padded with leading zeros to at least `width` characters.
pub open spec fn pad_zeros(digits: Seq<char>, width: nat) -> Seq<char> {
    if digits.len() < width {
        zeros((width - digits.len()) as nat) + digits
    } else {
        digits
    }
}

/// `format!("{:02}", n)` for an unsigned number.
pub open spec fn two_digits(n: u32) -> Seq<char> {
    pad_zeros(decimal(n as nat), 2)
}

/// `format!("{:04}", y)`: the sign counts towards the width.
pub open spec fn year_text(y: i32) -> Seq<char> {
    if y < 0 {
        "-"@ + pad_zeros(decimal((-y) as nat), 3)
    } else {
        pad_zeros(decimal(y as nat), 4)
    }
}

/// `YYYY-MM-DDTHH:MM:SSZ`.
pub open spec fn utc_text(y: i32, mo: u32, d: u32, h: u32, mi: u32, s: u32) -> Seq<char> {
    year_text(y) + "-"@ + two_digits(mo) + "-"@ + two_digits(d) + "T"@ + two_digits(h) + ":"@
        + two_digits(mi) + ":"@ + two_digits(s) + "Z"@
}

fn push_padded(out: &mut Vec<char>, n: u64, width: usize)
    ensures
        final(out)@ == old(out)@ + pad_zeros(decimal(n as nat), width as nat),
{
    let digits = decimal_chars(n);
    let ghost start = out@;
    if digits.len() < width {
        let pad = width - digits.len();
        let mut i: usize = 0;
        while i < pad
            invariant
                i <= pad,
                out@ == start + zeros(i as nat),
            decreases pad - i,
        {
            out.push('0');
            assert(start + zeros(i as nat) + seq!['0'] =~= start + zeros((i + 1) as nat));
            i = i + 1;
        }
        let ghost mid = out@;
        push_chars(out, digits.as_slice());
        assert(mid + digits@ =~= start + (zeros(pad as nat) + digits@));
    } else {
        push_chars(out, digits.as_slice());
    }
}

/// The ISO-8601 UTC text of calendar fields.
pub fn format_utc(y: i32, mo: u32, d: u32, h: u32, mi: u32, s: u32) -> (r: String)
    ensures
        r@ == utc_text(y, mo, d, h, mi, s),
{
    let mut out: Vec<char> = Vec::new();
    if y < 0 {
        push_str_chars(&mut out, "-");
        let mag: u64 = (-(y as i64)) as u64;
        push_padded(&mut out, mag, 3);
    } else {
        push_padded(&mut out, y as u64, 4);
    }
    push_str_chars(&mut out, "-");
    push_padded(&mut out, mo as u64, 2);
    push_str_chars(&mut out, "-");
    push_padded(&mut out, d as u64, 2);
    push_str_chars(&mut out, "T");
    push_padded(&mut out, h as u64, 2);
    push_str_chars(&mut out, ":");
    push_padded(&mut out, mi as u64, 2);
    push_str_chars(&mut out, ":");
    push_padded(&mut out, s as u64, 2);
    push_str_chars(&mut out, "Z");
    string_of(out.as_slice())
}

/// `t` is the UTC text of the instant `secs` seconds after the UNIX epoch.
pub open spec fn is_utc_text_of(secs: u64, t: Seq<char>) -> bool {
    exists|y: i32, mo: u32, d: u32|
        #[trigger] is_civil_date_of((secs / 86400) as int, y, mo, d) && t == utc_text(
            y,
            mo,
            d,
            ((secs % 86400) / 3600) as u32,
            ((secs % 3600) / 60) as u32,
            (secs % 60) as u32,
        )
}

/// The current-time text of the clock tool for UNIX seconds.
pub fn utc_timestamp(secs: u64) -> (r: String)
    ensures
        is_utc_text_of(secs, r@),
{
    let (y, mo, d, h, mi, s) = civil_from_unix(secs);
    let r = format_utc(y, mo, d, h, mi, s);
    assert(is_civil_date_of((secs / 86400) as int, y, mo, d) && r@ == utc_text(y, mo, d, h, mi, s));
    r
}

} // verus!
