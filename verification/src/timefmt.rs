//! Timestamp rendering: proleptic Gregorian conversion of an epoch-second
//! count to a civil date, fixed-width decimal padding, and the two
//! rendered forms the dashboard uses (a full UTC stamp and a short
//! time-of-day string).

use vstd::prelude::*;

use crate::strutil::dec_digits;
use crate::strutil::u64_to_string;

verus! {

/// A proleptic Gregorian leap year.
pub open spec fn is_leap(y: int) -> bool {
    y % 4 == 0 && (y % 100 != 0 || y % 400 == 0)
}

/// The length of a calendar month.
pub open spec fn days_in_month(leap: bool, m: int) -> int {
    if m == 1 {
        31
    } else if m == 2 {
        if leap {
            29
        } else {
            28
        }
    } else if m == 3 {
        31
    } else if m == 4 {
        30
    } else if m == 5 {
        31
    } else if m == 6 {
        30
    } else if m == 7 {
        31
    } else if m == 8 {
        31
    } else if m == 9 {
        30
    } else if m == 10 {
        31
    } else if m == 11 {
        30
    } else if m == 12 {
        31
    } else {
        0
    }
}

/// Days of the year before the first of month `m`.
pub open spec fn days_before_month(leap: bool, m: int) -> int
    decreases m,
{
    if m <= 1 {
        0
    } else {
        days_before_month(leap, m - 1) + days_in_month(leap, m - 1)
    }
}

/// Days from the first day of year 1 to the first day of year `y`, in the
/// proleptic Gregorian calendar.
pub open spec fn days_before_year(y: int) -> int {
    365 * (y - 1) + (y - 1) / 4 - (y - 1) / 100 + (y - 1) / 400
}

/// The day number of a civil date, counted from the first day of year 1.
pub open spec fn civil_day_number(y: int, m: int, d: int) -> int {
    days_before_year(y) + days_before_month(is_leap(y), m) + (d - 1)
}

/// A well-formed civil date.
pub open spec fn valid_date(y: int, m: int, d: int) -> bool {
    y >= 1 && 1 <= m <= 12 && 1 <= d <= days_in_month(is_leap(y), m)
}

/// The day number of the epoch origin, 1970-01-01.
pub open spec fn epoch_day_number() -> int {
    719162
}

/// One step of integer division: moving the dividend up by one raises the
/// quotient exactly when the new dividend is a multiple.
proof fn lemma_div_step(x: int, k: int)
    requires
        x >= 0,
        k > 0,
    ensures
        (x + 1) / k == x / k + (if (x + 1) % k == 0 {
            1int
        } else {
            0int
        }),
{
    vstd::arithmetic::div_mod::lemma_fundamental_div_mod(x, k);
    vstd::arithmetic::div_mod::lemma_fundamental_div_mod(x + 1, k);
    let q1 = x / k;
    let r1 = x % k;
    let q2 = (x + 1) / k;
    let r2 = (x + 1) % k;
    vstd::arithmetic::div_mod::lemma_mod_bound(x, k);
    vstd::arithmetic::div_mod::lemma_mod_bound(x + 1, k);
    vstd::arithmetic::div_mod::lemma_div_pos_is_pos(x, k);
    vstd::arithmetic::div_mod::lemma_div_pos_is_pos(x + 1, k);
    assert(k * q2 - k * q1 == 1 + r1 - r2);
    assert(k * (q2 - q1) == k * q2 - k * q1) by (nonlinear_arith);
    assert(-k < 1 + r1 - r2 < 2 * k);
    if q2 - q1 >= 2 || q2 - q1 < 0 {
        assert(k * (q2 - q1) >= 2 * k || k * (q2 - q1) <= -k) by (nonlinear_arith)
            requires
                k > 0,
                q2 - q1 >= 2 || q2 - q1 < 0,
        ;
        assert(false);
    }
    if q2 == q1 + 1 {
        assert(k * (q2 - q1) == k) by (nonlinear_arith)
            requires
                q2 == q1 + 1,
        ;
        assert(r2 == 1 + r1 - k);
        assert(r2 == 0);
    } else {
        assert(q2 == q1);
        assert(k * (q2 - q1) == 0) by (nonlinear_arith)
            requires
                q2 == q1,
        ;
        assert(r2 == r1 + 1);
        assert(r2 != 0);
    }
}

/// Adding a multiple of the divisor shifts the quotient by that multiple.
proof fn lemma_div_add_multiple(x: int, k: int, n: int)
    requires
        x >= 0,
        k > 0,
        n >= 0,
    ensures
        (x + k * n) / k == x / k + n,
        (x + k * n) % k == x % k,
{
    vstd::arithmetic::div_mod::lemma_fundamental_div_mod(x, k);
    vstd::arithmetic::div_mod::lemma_mod_bound(x, k);
    let q = x / k;
    let r = x % k;
    assert((q + n) * k == q * k + n * k) by (nonlinear_arith);
    assert(q * k == k * q) by (nonlinear_arith);
    assert(n * k == k * n) by (nonlinear_arith);
    vstd::arithmetic::div_mod::lemma_fundamental_div_mod_converse(x + k * n, k, q + n, r);
}

/// Divisibility by 400 implies divisibility by 100 and by 4.
proof fn lemma_mod_chains(x: int)
    requires
        x >= 0,
    ensures
        x % 400 == 0 ==> x % 100 == 0 && x % 4 == 0,
        x % 100 == 0 ==> x % 4 == 0,
{
    if x % 400 == 0 {
        vstd::arithmetic::div_mod::lemma_fundamental_div_mod(x, 400);
        let q = x / 400;
        assert(x == 400 * q);
        vstd::arithmetic::div_mod::lemma_div_pos_is_pos(x, 400);
        assert((4 * q) * 100 == 400 * q) by (nonlinear_arith);
        vstd::arithmetic::div_mod::lemma_fundamental_div_mod_converse(x, 100, 4 * q, 0);
    }
    if x % 100 == 0 {
        vstd::arithmetic::div_mod::lemma_fundamental_div_mod(x, 100);
        let q = x / 100;
        assert(x == 100 * q);
        vstd::arithmetic::div_mod::lemma_div_pos_is_pos(x, 100);
        assert((25 * q) * 4 == 100 * q) by (nonlinear_arith);
        vstd::arithmetic::div_mod::lemma_fundamental_div_mod_converse(x, 4, 25 * q, 0);
    }
}

/// Stepping one year forward adds that year's length.
pub proof fn lemma_year_step(y: int)
    requires
        y >= 1,
    ensures
        days_before_year(y + 1) == days_before_year(y) + (if is_leap(y) {
            366int
        } else {
            365int
        }),
{
    lemma_div_step(y - 1, 4);
    lemma_div_step(y - 1, 100);
    lemma_div_step(y - 1, 400);
    lemma_mod_chains(y);
}

/// Any four hundred consecutive years hold exactly 146097 days.
pub proof fn lemma_400_block(y: int)
    requires
        y >= 1,
    ensures
        days_before_year(y + 400) == days_before_year(y) + 146097,
{
    lemma_div_add_multiple(y - 1, 4, 100);
    lemma_div_add_multiple(y - 1, 100, 4);
    lemma_div_add_multiple(y - 1, 400, 1);
    assert(y - 1 + 4 * 100 == y + 400 - 1);
}

/// Iterating the 400-year block.
proof fn lemma_era_blocks(y: int, n: nat)
    requires
        y >= 1,
    ensures
        days_before_year(y + 400 * n) == days_before_year(y) + 146097 * n,
    decreases n,
{
    if n > 0 {
        lemma_era_blocks(y, (n - 1) as nat);
        lemma_400_block(y + 400 * (n - 1));
    }
}

/// The day count grows by at least 365 per year.
pub proof fn lemma_year_mono(y1: int, y2: int)
    requires
        1 <= y1 < y2,
    ensures
        days_before_year(y1) + 365 * (y2 - y1) <= days_before_year(y2),
    decreases y2 - y1,
{
    lemma_year_step(y2 - 1);
    if y1 < y2 - 1 {
        lemma_year_mono(y1, y2 - 1);
    }
}

/// Month prefix sums are monotone, and the year ends after the last
/// month.
pub proof fn lemma_month_table(leap: bool)
    ensures
        forall|m1: int, m2: int|
            1 <= m1 <= m2 <= 13 ==> days_before_month(leap, m1) <= days_before_month(leap, m2),
        forall|m: int|
            1 <= m <= 12 ==> days_before_month(leap, m) + days_in_month(leap, m)
                == days_before_month(leap, m + 1),
        days_before_month(leap, 13) == (if leap {
            366int
        } else {
            365int
        }),
        days_before_month(leap, 1) == 0,
{
    reveal_with_fuel(days_before_month, 14);
    assert forall|m1: int, m2: int| 1 <= m1 <= m2 <= 13 implies days_before_month(leap, m1)
        <= days_before_month(leap, m2) by {
        lemma_month_mono(leap, m1, m2);
    }
}

/// Month prefix sums are monotone.
proof fn lemma_month_mono(leap: bool, m1: int, m2: int)
    requires
        1 <= m1 <= m2 <= 13,
    ensures
        days_before_month(leap, m1) <= days_before_month(leap, m2),
    decreases m2 - m1,
{
    if m1 < m2 {
        lemma_month_mono(leap, m1, m2 - 1);
    }
}

/// Two distinct valid dates have distinct day numbers.
pub proof fn lemma_civil_injective(y1: int, m1: int, d1: int, y2: int, m2: int, d2: int)
    requires
        valid_date(y1, m1, d1),
        valid_date(y2, m2, d2),
        civil_day_number(y1, m1, d1) == civil_day_number(y2, m2, d2),
    ensures
        y1 == y2 && m1 == m2 && d1 == d2,
{
    lemma_day_of_year_bounds(y1, m1, d1);
    lemma_day_of_year_bounds(y2, m2, d2);
    if y1 < y2 {
        lemma_year_mono(y1, y2);
        lemma_year_step(y1);
        assert(false);
    }
    if y2 < y1 {
        lemma_year_mono(y2, y1);
        lemma_year_step(y2);
        assert(false);
    }
    let leap = is_leap(y1);
    lemma_month_table(leap);
    if m1 < m2 {
        assert(days_before_month(leap, m1) + days_in_month(leap, m1) <= days_before_month(
            leap,
            m2,
        ));
        assert(false);
    }
    if m2 < m1 {
        assert(days_before_month(leap, m2) + days_in_month(leap, m2) <= days_before_month(
            leap,
            m1,
        ));
        assert(false);
    }
}

/// A valid date's day-of-year offset lies within its year.
proof fn lemma_day_of_year_bounds(y: int, m: int, d: int)
    requires
        valid_date(y, m, d),
    ensures
        0 <= days_before_month(is_leap(y), m) + (d - 1),
        days_before_month(is_leap(y), m) + (d - 1) < (if is_leap(y) {
            366int
        } else {
            365int
        }),
        civil_day_number(y, m, d) >= days_before_year(y),
        civil_day_number(y, m, d) < days_before_year(y + 1),
{
    let leap = is_leap(y);
    lemma_month_table(leap);
    assert(days_before_month(leap, m) + days_in_month(leap, m) == days_before_month(leap, m + 1));
    assert(days_before_month(leap, m + 1) <= days_before_month(leap, 13));
    lemma_year_step(y);
}

/// Decides leap years.
pub fn is_leap_year(y: u64) -> (r: bool)
    ensures
        r == is_leap(y as int),
{
    y % 4 == 0 && (y % 100 != 0 || y % 400 == 0)
}

/// The length of a calendar month.
pub fn month_length(leap: bool, m: u64) -> (r: u64)
    requires
        1 <= m <= 12,
    ensures
        r == days_in_month(leap, m as int),
{
    if m == 1 {
        31
    } else if m == 2 {
        if leap {
            29
        } else {
            28
        }
    } else if m == 3 {
        31
    } else if m == 4 {
        30
    } else if m == 5 {
        31
    } else if m == 6 {
        30
    } else if m == 7 {
        31
    } else if m == 8 {
        31
    } else if m == 9 {
        30
    } else if m == 10 {
        31
    } else if m == 11 {
        30
    } else {
        31
    }
}

/// Converts days since the epoch to the civil date they fall in, by a
/// proleptic Gregorian conversion.
pub fn days_to_date(days_since_epoch: u64) -> (r: (u64, u64, u64))
    ensures
        valid_date(r.0 as int, r.1 as int, r.2 as int),
        civil_day_number(r.0 as int, r.1 as int, r.2 as int) == epoch_day_number()
            + days_since_epoch,
        r.0 >= 1970,
{
    let days = days_since_epoch;
    let era: u64 = days / 146097;
    let mut rem: u64 = days % 146097;
    proof {
        assert(era <= u64::MAX / 146097) by {
            vstd::arithmetic::div_mod::lemma_div_is_ordered(days as int, u64::MAX as int, 146097);
        }
        vstd::arithmetic::div_mod::lemma_fundamental_div_mod(days as int, 146097);
        vstd::arithmetic::div_mod::lemma_mod_bound(days as int, 146097);
        lemma_era_blocks(1970, era as nat);
        assert(days_before_year(1970) == 719162);
    }
    let mut y: u64 = 1970 + era * 400;
    let ghost y0 = y;
    let ghost rem0 = rem;
    assert(days_before_year(y as int) == epoch_day_number() + days - rem);
    loop
        invariant
            y >= 1970,
            y0 <= y,
            rem <= rem0 < 146097,
            365 * (y - y0) <= rem0 - rem,
            y0 <= 1970 + (u64::MAX / 146097) * 400,
            days_before_year(y as int) == epoch_day_number() + days - rem,
        ensures
            y >= 1970,
            rem < (if is_leap(y as int) {
                366int
            } else {
                365int
            }),
            days_before_year(y as int) == epoch_day_number() + days - rem,
        decreases rem,
    {
        let len: u64 = if is_leap_year(y) {
            366
        } else {
            365
        };
        if rem < len {
            break ;
        }
        proof {
            lemma_year_step(y as int);
            assert(y - y0 < 401);
        }
        rem = rem - len;
        y = y + 1;
    }
    let leap = is_leap_year(y);
    proof {
        lemma_month_table(leap);
    }
    let ghost doy = rem;
    let mut m: u64 = 1;
    loop
        invariant
            1 <= m <= 12,
            leap == is_leap(y as int),
            rem + days_before_month(leap, m as int) == doy,
            doy < (if leap {
                366int
            } else {
                365int
            }),
            days_before_year(y as int) == epoch_day_number() + days - doy,
            y >= 1970,
            forall|mm: int|
                1 <= mm <= 12 ==> days_before_month(leap, mm) + days_in_month(leap, mm)
                    == days_before_month(leap, mm + 1),
            forall|m1: int, m2: int|
                1 <= m1 <= m2 <= 13 ==> days_before_month(leap, m1) <= days_before_month(
                    leap,
                    m2,
                ),
            days_before_month(leap, 13) == (if leap {
                366int
            } else {
                365int
            }),
        ensures
            1 <= m <= 12,
            rem < days_in_month(leap, m as int),
            rem + days_before_month(leap, m as int) == doy,
        decreases 13 - m,
    {
        let dim = month_length(leap, m);
        if rem < dim {
            break ;
        }
        proof {
            if m == 12 {
                assert(days_before_month(leap, 13) == days_before_month(leap, 12)
                    + days_in_month(leap, 12));
                assert(false);
            }
        }
        rem = rem - dim;
        m = m + 1;
    }
    let d: u64 = rem + 1;
    (y, m, d)
}

/// A number rendered in decimal, padded with zeroes to two digits.
pub open spec fn pad2(n: nat) -> Seq<char> {
    if n < 10 {
        "0"@ + dec_digits(n)
    } else {
        dec_digits(n)
    }
}

/// A number rendered in decimal, padded with zeroes to four digits.
pub open spec fn pad4(n: nat) -> Seq<char> {
    if n < 10 {
        "000"@ + dec_digits(n)
    } else if n < 100 {
        "00"@ + dec_digits(n)
    } else if n < 1000 {
        "0"@ + dec_digits(n)
    } else {
        dec_digits(n)
    }
}

/// Renders a number padded to two digits.
pub fn pad2_string(n: u64) -> (s: String)
    ensures
        s@ == pad2(n as nat),
{
    if n < 10 {
        let mut s = String::from_str("0");
        let t = u64_to_string(n);
        s.append(t.as_str());
        s
    } else {
        u64_to_string(n)
    }
}

/// Renders a number padded to four digits.
pub fn pad4_string(n: u64) -> (s: String)
    ensures
        s@ == pad4(n as nat),
{
    if n < 10 {
        let mut s = String::from_str("000");
        let t = u64_to_string(n);
        s.append(t.as_str());
        s
    } else if n < 100 {
        let mut s = String::from_str("00");
        let t = u64_to_string(n);
        s.append(t.as_str());
        s
    } else if n < 1000 {
        let mut s = String::from_str("0");
        let t = u64_to_string(n);
        s.append(t.as_str());
        s
    } else {
        u64_to_string(n)
    }
}

/// The full UTC stamp for a date and time of day.
pub open spec fn iso_string(y: nat, m: nat, d: nat, h: nat, mi: nat, se: nat) -> Seq<char> {
    pad4(y) + "-"@ + pad2(m) + "-"@ + pad2(d) + "T"@ + pad2(h) + ":"@ + pad2(mi) + ":"@ + pad2(se)
        + "Z"@
}

/// What rendering an epoch-second count yields: the stamp of the civil
/// date the count falls in, with its time of day.
pub open spec fn iso_rendered(secs: nat, s: Seq<char>) -> bool {
    exists|y: int, m: int, d: int|
        valid_date(y, m, d) && civil_day_number(y, m, d) == epoch_day_number() + secs / 86400 && s
            == iso_string(
            y as nat,
            m as nat,
            d as nat,
            ((secs % 86400) / 3600) as nat,
            ((secs % 3600) / 60) as nat,
            (secs % 60) as nat,
        )
}

/// Renders an epoch-second count as a UTC stamp, `YYYY-MM-DDTHH:MM:SSZ`.
pub fn format_epoch_iso(secs: u64) -> (s: String)
    ensures
        iso_rendered(secs as nat, s@),
{
    let days: u64 = secs / 86400;
    let time_secs: u64 = secs % 86400;
    let hours: u64 = time_secs / 3600;
    let minutes: u64 = (secs % 3600) / 60;
    let seconds: u64 = secs % 60;
    let (y, m, d) = days_to_date(days);
    let mut s = pad4_string(y);
    s.append("-");
    let t1 = pad2_string(m);
    s.append(t1.as_str());
    s.append("-");
    let t2 = pad2_string(d);
    s.append(t2.as_str());
    s.append("T");
    let t3 = pad2_string(hours);
    s.append(t3.as_str());
    s.append(":");
    let t4 = pad2_string(minutes);
    s.append(t4.as_str());
    s.append(":");
    let t5 = pad2_string(seconds);
    s.append(t5.as_str());
    s.append("Z");
    proof {
        assert(s@ == iso_string(
            y as nat,
            m as nat,
            d as nat,
            ((secs as nat % 86400) / 3600) as nat,
            ((secs as nat % 3600) / 60) as nat,
            (secs as nat % 60) as nat,
        ));
    }
    s
}

/// Rendering the first second of a civil day reproduces exactly that
/// day's stamp, at midnight.
pub proof fn lemma_day_start_round_trip(y: int, m: int, d: int, secs: nat, s: Seq<char>)
    requires
        valid_date(y, m, d),
        civil_day_number(y, m, d) >= epoch_day_number(),
        secs == (civil_day_number(y, m, d) - epoch_day_number()) * 86400,
        iso_rendered(secs, s),
    ensures
        s == iso_string(y as nat, m as nat, d as nat, 0, 0, 0),
{
    let k = civil_day_number(y, m, d) - epoch_day_number();
    vstd::arithmetic::div_mod::lemma_fundamental_div_mod_converse(86400 * k, 86400, k, 0);
    assert(secs == 86400 * k);
    assert(secs / 86400 == k);
    assert(secs % 86400 == 0);
    vstd::arithmetic::div_mod::lemma_fundamental_div_mod_converse(
        secs as int,
        3600,
        24 * k,
        0,
    );
    vstd::arithmetic::div_mod::lemma_fundamental_div_mod_converse(
        secs as int,
        60,
        1440 * k,
        0,
    );
    let (y2, m2, d2) = choose|y2: int, m2: int, d2: int|
        valid_date(y2, m2, d2) && civil_day_number(y2, m2, d2) == epoch_day_number() + secs
            / 86400 && s == iso_string(
            y2 as nat,
            m2 as nat,
            d2 as nat,
            ((secs % 86400) / 3600) as nat,
            ((secs % 3600) / 60) as nat,
            (secs % 60) as nat,
        );
    lemma_civil_injective(y, m, d, y2, m2, d2);
}

/// The short time-of-day rendering used in rate-limit reset hints.
pub open spec fn local_time_spec(ts: nat) -> Seq<char> {
    pad2(((ts % 86400) / 3600) as nat) + ":"@ + pad2(((ts % 3600) / 60) as nat) + ":"@ + pad2(
        (ts % 60) as nat,
    ) + " UTC"@
}

/// Renders an epoch-second count as a time of day, `HH:MM:SS UTC`.
pub fn chrono_timestamp_to_local_time(ts: u64) -> (s: String)
    ensures
        s@ == local_time_spec(ts as nat),
{
    let hours: u64 = (ts % 86400) / 3600;
    let minutes: u64 = (ts % 3600) / 60;
    let seconds: u64 = ts % 60;
    let mut s = pad2_string(hours);
    s.append(":");
    let t1 = pad2_string(minutes);
    s.append(t1.as_str());
    s.append(":");
    let t2 = pad2_string(seconds);
    s.append(t2.as_str());
    s.append(" UTC");
    s
}

/// Relies on std::time::SystemTime::now: the seconds elapsed since the
/// Unix epoch, zero if the clock reads earlier than the epoch. The value
/// depends on the clock, so nothing is promised of it.
#[verifier::external_body]
fn now_epoch_secs() -> u64 {
    std::time::SystemTime::now().duration_since(std::time::UNIX_EPOCH).unwrap_or_default()
        .as_secs()
}

/// Renders the current moment as a UTC stamp.
pub fn chrono_now_iso() -> (s: String)
    ensures
        exists|secs: nat| iso_rendered(secs, s@),
{
    let secs = now_epoch_secs();
    let s = format_epoch_iso(secs);
    proof {
        assert(iso_rendered(secs as nat, s@));
    }
    s
}

} // verus!
