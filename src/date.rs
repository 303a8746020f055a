use vstd::prelude::*;

use crate::lexer::{is_digit, lift, run_end, scan, ByteClass};
use crate::numbers::{all_digits, dec_value, digits_value, int_v, lemma_dec_value_bound, pow10, spec_int_v};

use chrono::{Datelike, Timelike};

verus! {

/// A calendar date and a time of day, without time zone.
#[derive(Clone, Copy, Debug, PartialEq, Eq, Structural)]
pub struct DateTime {
    pub year: i32,
    pub month: u32,
    pub day: u32,
    pub hour: u32,
    pub minute: u32,
    pub second: u32,
    pub nanosecond: u32,
}

pub open spec fn is_leap_year(y: int) -> bool {
    (y % 4 == 0 && y % 100 != 0) || y % 400 == 0
}

pub open spec fn days_in_month(y: int, m: int) -> int {
    if m == 2 {
        if is_leap_year(y) {
            29
        } else {
            28
        }
    } else if m == 4 || m == 6 || m == 9 || m == 11 {
        30
    } else {
        31
    }
}

/// A day of the proleptic Gregorian calendar that chrono can represent.
pub open spec fn valid_ymd(y: int, m: int, d: int) -> bool {
    -262143 <= y <= 262142 && 1 <= m <= 12 && 1 <= d <= days_in_month(y, m)
}

/// A time of day; a nanosecond count past one second marks a leap second,
/// which only the 59th second can hold.
pub open spec fn valid_hmsn(h: int, mi: int, s: int, n: int) -> bool {
    0 <= h < 24 && 0 <= mi < 60 && 0 <= s < 60 && 0 <= n < 2_000_000_000 && (n < 1_000_000_000
        || s == 59)
}

/// The number of days from 0000-03-01 to the given day.
pub open spec fn days_from_civil(y: int, m: int, d: int) -> int {
    let y2 = if m <= 2 {
        y - 1
    } else {
        y
    };
    let era = y2 / 400;
    let yoe = y2 - era * 400;
    let mp = if m > 2 {
        m - 3
    } else {
        m + 9
    };
    let doy = (153 * mp + 2) / 5 + d - 1;
    let doe = yoe * 365 + yoe / 4 - yoe / 100 + doy;
    era * 146097 + doe
}

impl DateTime {
    pub open spec fn wf(self) -> bool {
        valid_ymd(self.year as int, self.month as int, self.day as int) && valid_hmsn(
            self.hour as int,
            self.minute as int,
            self.second as int,
            self.nanosecond as int,
        )
    }

    /// The instant as nanoseconds on one time line, for an instant that is
    /// no leap second.
    pub open spec fn instant_nanos(self) -> int {
        (days_from_civil(self.year as int, self.month as int, self.day as int) * 86400
            + self.hour * 3600 + self.minute * 60 + self.second) * 1_000_000_000
            + self.nanosecond
    }
}

/// What chrono makes of a date and time moved by a number of nanoseconds.
pub uninterp spec fn date_plus_nanos(base: DateTime, n: i64) -> DateTime;

/// Relies on `chrono::NaiveDate::from_ymd_opt`: it returns a date exactly for
/// a valid day of the proleptic Gregorian calendar within chrono's year range.
#[verifier::external_body]
fn calendar_date_ok(y: i32, m: u32, d: u32) -> (r: bool)
    ensures
        r == valid_ymd(y as int, m as int, d as int),
{
    chrono::NaiveDate::from_ymd_opt(y, m, d).is_some()
}

/// Relies on `chrono::NaiveTime::from_hms_nano_opt`: it returns a time exactly
/// for hours, minutes and seconds in range, and nanoseconds under one second,
/// or under two on the 59th second.
#[verifier::external_body]
fn clock_time_ok(h: u32, mi: u32, s: u32, n: u32) -> (r: bool)
    ensures
        r == valid_hmsn(h as int, mi as int, s as int, n as int),
{
    chrono::NaiveTime::from_hms_nano_opt(h, mi, s, n).is_some()
}

/// Relies on adding `chrono::Duration::nanoseconds(n)` to a
/// `chrono::NaiveDateTime`: the result lies `n` nanoseconds after the base on
/// the time line. Within the year bound of `requires`, i64 nanoseconds (about
/// 292 years) cannot leave chrono's range, where the addition would panic.
#[verifier::external_body]
fn add_nanos(base: DateTime, n: i64) -> (r: DateTime)
    requires
        base.wf(),
        base.nanosecond < 1_000_000_000,
        -200000 <= base.year <= 200000,
    ensures
        r == date_plus_nanos(base, n),
        r.wf(),
        r.nanosecond < 1_000_000_000,
        r.instant_nanos() == base.instant_nanos() + n,
{
    let date = chrono::NaiveDate::from_ymd_opt(base.year, base.month, base.day).unwrap();
    let time = chrono::NaiveTime::from_hms_nano_opt(base.hour, base.minute, base.second, base.nanosecond).unwrap();
    let t = chrono::NaiveDateTime::new(date, time) + chrono::Duration::nanoseconds(n);
    DateTime {
        year: t.year(),
        month: t.month(),
        day: t.day(),
        hour: t.hour(),
        minute: t.minute(),
        second: t.second(),
        nanosecond: t.nanosecond(),
    }
}

/// The instant from which integer date literals count nanoseconds.
pub open spec fn reference_instant() -> DateTime {
    DateTime { year: 2001, month: 1, day: 1, hour: 0, minute: 0, second: 0, nanosecond: 0 }
}

/// 2001-01-01T00:00:00.
pub fn reference_date() -> (r: DateTime)
    ensures
        r == reference_instant(),
{
    DateTime { year: 2001, month: 1, day: 1, hour: 0, minute: 0, second: 0, nanosecond: 0 }
}

/// The nanoseconds of a fraction of a second whose digits are `s[i..e]`: the
/// first nine digits, padded with zeros; later digits are dropped.
pub open spec fn frac_nanos(s: Seq<u8>, i: int, e: int, k: nat) -> nat
    decreases k,
{
    if k == 0 {
        0
    } else {
        frac_nanos(s, i, e, (k - 1) as nat) * 10 + (if i + k - 1 < e {
            (s[i + k - 1] - 48) as nat
        } else {
            0
        })
    }
}

/// Where a date literal's fixed part ends: `YYYYMMDDThh:mm:ss` is 17 bytes.
pub open spec fn fixed_fields_ok(s: Seq<u8>, p: int) -> bool {
    &&& 0 <= p && p + 17 <= s.len()
    &&& all_digits(s, p, p + 8)
    &&& s[p + 8] == 84
    &&& all_digits(s, p + 9, p + 11)
    &&& s[p + 11] == 58
    &&& all_digits(s, p + 12, p + 14)
    &&& s[p + 14] == 58
    &&& all_digits(s, p + 15, p + 17)
}

/// Whether a fraction follows the fixed part: a point and at least one digit.
pub open spec fn has_fraction(s: Seq<u8>, p: int) -> bool {
    p + 18 < s.len() && s[p + 17] == 46 && is_digit(s[p + 18])
}

pub open spec fn absolute_end(s: Seq<u8>, p: int) -> int {
    if has_fraction(s, p) {
        run_end(s, p + 18, ByteClass::Digit)
    } else {
        p + 17
    }
}

/// The fields of `YYYYMMDDThh:mm:ss[.fraction]` at `p`, valid or not.
pub open spec fn absolute_fields(s: Seq<u8>, p: int) -> DateTime {
    DateTime {
        year: dec_value(s, p, p + 4) as i32,
        month: dec_value(s, p + 4, p + 6) as u32,
        day: dec_value(s, p + 6, p + 8) as u32,
        hour: dec_value(s, p + 9, p + 11) as u32,
        minute: dec_value(s, p + 12, p + 14) as u32,
        second: dec_value(s, p + 15, p + 17) as u32,
        nanosecond: if has_fraction(s, p) {
            frac_nanos(s, p + 18, absolute_end(s, p), 9) as u32
        } else {
            0
        },
    }
}

/// A date literal: `YYYYMMDDThh:mm:ss[.fraction]` naming a valid day and time,
/// or else a signed integer, the nanoseconds after 2001-01-01T00:00:00.
pub open spec fn spec_date_v(s: Seq<u8>, p: int) -> Option<(DateTime, int)> {
    if fixed_fields_ok(s, p) && absolute_fields(s, p).wf() {
        Some((absolute_fields(s, p), absolute_end(s, p)))
    } else {
        match spec_int_v(s, p) {
            Some((n, q)) => Some((date_plus_nanos(reference_instant(), n), q)),
            None => None,
        }
    }
}

/// `n` digits at `i`, all of them decimal digits.
fn fixed_number(input: &[u8], i: usize, n: usize) -> (r: Option<u32>)
    requires
        i + n <= input@.len(),
        n <= 4,
    ensures
        r is Some <==> all_digits(input@, i as int, i + n),
        r matches Some(v) ==> v == dec_value(input@, i as int, i + n) && v <= 9999,
{
    let len = input.len();
    let end = i + n;
    let mut j: usize = i;
    while j < end
        invariant
            end == i + n,
            i <= j <= i + n <= input@.len(),
            all_digits(input@, i as int, j as int),
        decreases i + n - j,
    {
        if !(48 <= input[j] && input[j] <= 57) {
            return None;
        }
        j = j + 1;
    }
    proof {
        lemma_dec_value_bound(input@, i as int, i + n);
        reveal_with_fuel(pow10, 5);
    }
    match digits_value(input, i, end, 9999) {
        Some(v) => Some(v as u32),
        None => None,
    }
}

proof fn lemma_frac_nanos_bound(s: Seq<u8>, i: int, e: int, k: nat)
    requires
        all_digits(s, i, e),
    ensures
        frac_nanos(s, i, e, k) < pow10(k),
    decreases k,
{
    if k > 0 {
        lemma_frac_nanos_bound(s, i, e, (k - 1) as nat);
        let a = frac_nanos(s, i, e, (k - 1) as nat);
        let b = pow10((k - 1) as nat);
        if i + k - 1 < e {
            assert(is_digit(s[i + k - 1]));
        }
        assert(a * 10 + 9 < b * 10) by (nonlinear_arith)
            requires
                a < b,
        ;
    }
}

/// The fraction digits `input[i..e]` as nanoseconds.
fn fraction(input: &[u8], i: usize, e: usize) -> (r: u32)
    requires
        i <= e <= input@.len(),
        all_digits(input@, i as int, e as int),
    ensures
        r == frac_nanos(input@, i as int, e as int, 9),
        r < 1_000_000_000,
{
    let mut acc: u64 = 0;
    let mut k: usize = 0;
    while k < 9
        invariant
            k <= 9,
            i <= e <= input@.len(),
            all_digits(input@, i as int, e as int),
            acc == frac_nanos(input@, i as int, e as int, k as nat),
        decreases 9 - k,
    {
        proof {
            lemma_frac_nanos_bound(input@, i as int, e as int, k as nat);
            reveal_with_fuel(pow10, 10);
            assert(pow10(k as nat) <= 1_000_000_000) by {
                assert(pow10(9) == 1_000_000_000);
                lemma_pow10_mono(k as nat, 9);
            }
        }
        let d: u64 = if k < e - i {
            (input[i + k] - 48) as u64
        } else {
            0
        };
        acc = acc * 10 + d;
        k = k + 1;
    }
    proof {
        lemma_frac_nanos_bound(input@, i as int, e as int, 9);
        reveal_with_fuel(pow10, 10);
    }
    acc as u32
}

proof fn lemma_pow10_mono(a: nat, b: nat)
    requires
        a <= b,
    ensures
        pow10(a) <= pow10(b),
    decreases b - a,
{
    if a < b {
        lemma_pow10_mono(a, (b - 1) as nat);
    }
}

proof fn lemma_all_digits_join(s: Seq<u8>, a: int, b: int, c: int)
    requires
        a <= b <= c,
        all_digits(s, a, b),
        all_digits(s, b, c),
    ensures
        all_digits(s, a, c),
{
    assert forall|j: int| a <= j < c implies is_digit(#[trigger] s[j]) by {
        if j < b {
            assert(all_digits(s, a, b));
        } else {
            assert(all_digits(s, b, c));
        }
    }
}

/// The absolute form `YYYYMMDDThh:mm:ss[.fraction]` at `pos`.
fn absolute_date(input: &[u8], pos: usize) -> (r: Option<(DateTime, usize)>)
    requires
        pos <= input@.len(),
    ensures
        lift(r) == (if fixed_fields_ok(input@, pos as int) && absolute_fields(input@, pos as int).wf() {
            Some((absolute_fields(input@, pos as int), absolute_end(input@, pos as int)))
        } else {
            None
        }),
        r matches Some((_, q)) ==> pos < q <= input@.len(),
{
    let n = input.len();
    if n < 17 || pos > n - 17 {
        return None;
    }
    if !(input[pos + 8] == 84 && input[pos + 11] == 58 && input[pos + 14] == 58) {
        return None;
    }
    let year = fixed_number(input, pos, 4);
    let month = fixed_number(input, pos + 4, 2);
    let day = fixed_number(input, pos + 6, 2);
    let hour = fixed_number(input, pos + 9, 2);
    let minute = fixed_number(input, pos + 12, 2);
    let second = fixed_number(input, pos + 15, 2);
    let (y, mo, d, h, mi, s) = match (year, month, day, hour, minute, second) {
        (Some(y), Some(mo), Some(d), Some(h), Some(mi), Some(s)) => (y, mo, d, h, mi, s),
        _ => {
            proof {
                if fixed_fields_ok(input@, pos as int) {
                    assert(all_digits(input@, pos as int, pos + 4));
                    assert(all_digits(input@, pos + 4, pos + 6));
                    assert(all_digits(input@, pos + 6, pos + 8));
                }
            }
            return None;
        },
    };
    proof {
        lemma_all_digits_join(input@, pos as int, pos + 4, pos + 6);
        lemma_all_digits_join(input@, pos as int, pos + 6, pos + 8);
    }
    let frac = n - pos > 18 && input[pos + 17] == 46 && 48 <= input[pos + 18] && input[pos + 18] <= 57;
    let (nanos, end) = if frac {
        let e = scan(input, pos + 18, ByteClass::Digit);
        proof {
            crate::lexer::lemma_run_end(input@, pos + 18, ByteClass::Digit);
        }
        (fraction(input, pos + 18, e), e)
    } else {
        (0, pos + 17)
    };
    let dt = DateTime {
        year: y as i32,
        month: mo,
        day: d,
        hour: h,
        minute: mi,
        second: s,
        nanosecond: nanos,
    };
    assert(dt == absolute_fields(input@, pos as int));
    if calendar_date_ok(dt.year, mo, d) && clock_time_ok(h, mi, s, nanos) {
        Some((dt, end))
    } else {
        None
    }
}

/// A date literal at `pos`.
pub fn date_v(input: &[u8], pos: usize) -> (r: Option<(DateTime, usize)>)
    requires
        pos <= input@.len(),
    ensures
        lift(r) == spec_date_v(input@, pos as int),
        r matches Some((_, q)) ==> pos < q <= input@.len(),
        r matches Some((d, _)) ==> d.wf(),
        r matches Some((d, _)) ==> (!(fixed_fields_ok(input@, pos as int) && absolute_fields(input@, pos as int).wf())
            ==> (spec_int_v(input@, pos as int) matches Some((n, _)) && d.instant_nanos()
            == reference_instant().instant_nanos() + n)),
{
    match absolute_date(input, pos) {
        Some(r) => {
            return Some(r);
        },
        None => {},
    }
    match int_v(input, pos) {
        Some((v, q)) => Some((add_nanos(reference_date(), v), q)),
        None => None,
    }
}

} // verus!
