//! Session retention: the label of a policy and the calendar arithmetic of
//! its month-based cutoff.

use vstd::prelude::*;

use crate::config::{retention_result, SessionRetention};
use crate::text::{
    ascii_lower, decimal, decimal_string, is_digit, is_whitespace, lemma_decimal_digits,
    lemma_parse_decimal, lower, owned, push_str, trim, trim_end, trim_start,
};

verus! {

/// How many sessions a purge removed, and how many it skipped because
/// their timestamps could not be read.
pub struct PurgeReport {
    pub removed: usize,
    pub skipped_unparseable: usize,
}

/// The label of a retention policy: `never`, `{n}d` or `{n}mo`.
pub open spec fn retention_label_text(r: SessionRetention) -> Seq<char> {
    match r {
        SessionRetention::Never => "never"@,
        SessionRetention::Days(d) => decimal(d as nat) + "d"@,
        SessionRetention::Months(m) => decimal(m as nat) + "mo"@,
    }
}

/// The label of a retention policy, in the form the configuration accepts.
pub fn retention_label(retention: SessionRetention) -> (s: String)
    ensures
        s@ == retention_label_text(retention),
{
    match retention {
        SessionRetention::Never => owned("never"),
        SessionRetention::Days(days) => {
            let mut s = decimal_string(days);
            push_str(&mut s, "d");
            s
        },
        SessionRetention::Months(months) => {
            let mut s = decimal_string(months as u64);
            push_str(&mut s, "mo");
            s
        },
    }
}

proof fn lemma_trim_noop(s: Seq<char>)
    requires
        s.len() > 0,
        !is_whitespace(s[0]),
        !is_whitespace(s.last()),
    ensures
        trim(s) == s,
{
    assert(trim_start(s) == s);
    assert(trim_end(s) == s);
}

proof fn lemma_lower_noop(s: Seq<char>)
    requires
        forall|i: int| 0 <= i < s.len() ==> !('A' <= #[trigger] s[i] && s[i] <= 'Z'),
    ensures
        lower(s) == s,
{
    assert forall|i: int| 0 <= i < s.len() implies #[trigger] lower(s)[i] == s[i] by {
        assert(ascii_lower(s[i]) == s[i]);
    }
    assert(lower(s) =~= s);
}

/// Reading back the label of a policy gives the policy: for every
/// retention `r`, `parse_retention(&retention_label(r))` is `Ok(r)`
/// (`never`, `{n}d`, `{n}mo`; `Days(0)` reads back from `0d`). Stated over
/// the two functions' exact results, `retention_label_text` and
/// `retention_result`.
pub proof fn lemma_retention_label_round_trip(r: SessionRetention)
    ensures
        retention_result(retention_label_text(r)) == Ok::<SessionRetention, Seq<char>>(r),
{
    reveal_strlit("never");
    reveal_strlit("d");
    reveal_strlit("mo");
    reveal_strlit("0");
    reveal_strlit("unlimited");
    match r {
        SessionRetention::Never => {
            let s = "never"@;
            lemma_trim_noop(s);
            lemma_lower_noop(s);
        },
        SessionRetention::Days(d) => {
            let digits = decimal(d as nat);
            lemma_decimal_digits(d as nat);
            let s = digits + "d"@;
            assert(s.last() == 'd');
            assert(is_digit(s[0]));
            lemma_trim_noop(s);
            assert forall|i: int| 0 <= i < s.len() implies !('A' <= #[trigger] s[i] && s[i] <= 'Z') by {
                if i < digits.len() {
                    assert(is_digit(digits[i]));
                }
            }
            lemma_lower_noop(s);
            assert(s.drop_last() =~= digits);
            lemma_parse_decimal(d as nat, u64::MAX as nat);
            assert(s != "0"@) by {
                assert(s.len() >= 2);
            }
            assert(s != "never"@) by {
                assert(s.last() != "never"@.last());
            }
            assert(s != "unlimited"@) by {
                assert(s[0] != "unlimited"@[0]);
            }
        },
        SessionRetention::Months(m) => {
            let digits = decimal(m as nat);
            lemma_decimal_digits(m as nat);
            let s = digits + "mo"@;
            assert(s.last() == 'o');
            assert(is_digit(s[0]));
            lemma_trim_noop(s);
            assert forall|i: int| 0 <= i < s.len() implies !('A' <= #[trigger] s[i] && s[i] <= 'Z') by {
                if i < digits.len() {
                    assert(is_digit(digits[i]));
                }
            }
            lemma_lower_noop(s);
            assert(s.subrange(0, s.len() - 2) =~= digits);
            assert(s.subrange(s.len() - 2, s.len() as int) =~= "mo"@);
            lemma_parse_decimal(m as nat, u32::MAX as nat);
            assert(s != "0"@) by {
                assert(s.len() >= 3);
            }
            assert(s != "never"@) by {
                assert(s.last() != "never"@.last());
            }
            assert(s != "unlimited"@) by {
                assert(s.last() != "unlimited"@.last());
            }
        },
    }
}

// ---------------------------------------------------------------------------
// Calendar months
// ---------------------------------------------------------------------------

/// A day of the proleptic Gregorian calendar.
#[derive(Debug, Clone, Copy, PartialEq, Eq, Structural)]
pub struct CalendarDate {
    pub year: i32,
    /// 1 (January) to 12 (December).
    pub month: u8,
    pub day: u8,
}

/// Leap years of the Gregorian calendar.
pub open spec fn is_leap_year(year: int) -> bool {
    year % 4 == 0 && (year % 100 != 0 || year % 400 == 0)
}

/// The number of days in a month (`time::Month::length`).
pub open spec fn days_in_month(year: int, month: int) -> int {
    if month == 2 {
        if is_leap_year(year) { 29 } else { 28 }
    } else if month == 4 || month == 6 || month == 9 || month == 11 {
        30
    } else {
        31
    }
}

/// A date that the calendar holds, with the year in 9999 BCE..=9999.
pub open spec fn valid_date(d: CalendarDate) -> bool {
    &&& -9999 <= d.year <= 9999
    &&& 1 <= d.month <= 12
    &&& 1 <= d.day <= days_in_month(d.year as int, d.month as int)
}

/// `months as i32`: the count read as a signed 32-bit number.
pub open spec fn months_as_i32(months: u32) -> int {
    if months <= 0x7fff_ffff { months as int } else { months as int - 0x1_0000_0000 }
}

/// Months since January of year 0 for the result of stepping back.
pub open spec fn target_month_index(date: CalendarDate, months: u32) -> int {
    date.year as int * 12 + (date.month as int - 1) - months_as_i32(months)
}

/// The date `months` calendar months earlier, the day clamped to the
/// length of the target month.
pub open spec fn spec_subtract_months(date: CalendarDate, months: u32) -> CalendarDate {
    let t = target_month_index(date, months);
    let year = t / 12;
    let month = t % 12 + 1;
    let len = days_in_month(year, month);
    CalendarDate {
        year: year as i32,
        month: month as u8,
        day: (if (date.day as int) < len { date.day as int } else { len }) as u8,
    }
}

fn is_leap_year_exec(year: i32) -> (r: bool)
    ensures
        r == is_leap_year(year as int),
{
    year % 4 == 0 && (year % 100 != 0 || year % 400 == 0)
}

/// The number of days in a month.
pub fn month_length(year: i32, month: u8) -> (r: u8)
    requires
        1 <= month <= 12,
    ensures
        r == days_in_month(year as int, month as int),
{
    if month == 2 {
        if is_leap_year_exec(year) { 29 } else { 28 }
    } else if month == 4 || month == 6 || month == 9 || month == 11 {
        30
    } else {
        31
    }
}

fn months_i32(months: u32) -> (r: i32)
    ensures
        r as int == months_as_i32(months),
{
    if months <= 0x7fff_ffff {
        months as i32
    } else {
        let low: u32 = months - 0x8000_0000;
        let r: i32 = (low as i32) - 0x7fff_ffff - 1;
        r
    }
}

/// The date `months` calendar months before `date`, keeping the day of
/// the month where the target month is long enough and clamping it to the
/// month's last day otherwise.
pub fn subtract_months(date: CalendarDate, months: u32) -> (r: CalendarDate)
    requires
        valid_date(date),
        -9999 <= target_month_index(date, months) / 12 <= 9999,
    ensures
        r == spec_subtract_months(date, months),
        valid_date(r),
{
    let mut year: i32 = date.year;
    let mut month_number: i32 = date.month as i32 - months_i32(months);
    let ghost total = target_month_index(date, months);
    while month_number < 1
        invariant
            year as int * 12 + month_number - 1 == total,
            -9999 <= total / 12 <= 9999,
            month_number <= 12 || year == date.year,
            month_number >= date.month as int - 0x7fff_ffff,
            year <= date.year,
            year >= -178_966_970,
        decreases (if month_number < 1 { 1 - month_number } else { 0 }),
    {
        month_number = month_number + 12;
        year = year - 1;
    }
    while month_number > 12
        invariant
            year as int * 12 + month_number - 1 == total,
            -9999 <= total / 12 <= 9999,
            month_number >= 1,
            year >= -178_966_970,
            year <= 178_966_970,
        decreases month_number,
    {
        month_number = month_number - 12;
        year = year + 1;
    }
    assert(year as int == total / 12 && month_number as int == total % 12 + 1) by (nonlinear_arith)
        requires
            year as int * 12 + month_number - 1 == total,
            1 <= month_number <= 12,
    ;
    let month = month_number as u8;
    let max_day = month_length(year, month);
    let day = if date.day < max_day { date.day } else { max_day };
    CalendarDate { year, month, day }
}

// ---------------------------------------------------------------------------
// Retention cutoffs
// ---------------------------------------------------------------------------

/// Nanoseconds in a day.
pub const NANOS_PER_DAY: u64 = 86_400_000_000_000;

/// Days of the year before the first of `month` (1 to 12), in a leap
/// year or not.
pub open spec fn days_before_month(year: int, month: int) -> int {
    let common: int = if month == 1 {
        0
    } else if month == 2 {
        31
    } else if month == 3 {
        59
    } else if month == 4 {
        90
    } else if month == 5 {
        120
    } else if month == 6 {
        151
    } else if month == 7 {
        181
    } else if month == 8 {
        212
    } else if month == 9 {
        243
    } else if month == 10 {
        273
    } else if month == 11 {
        304
    } else {
        334
    };
    common + if month > 2 && is_leap_year(year) {
        1int
    } else {
        0int
    }
}

/// The day of the year of a date, from 1.
pub open spec fn ordinal_day(year: int, month: int, day: int) -> int {
    days_before_month(year, month) + day
}

/// The Julian day number of a date, as the `time` crate computes it
/// (`Date::to_julian_day`): with the year shifted by 999 999 so that it is
/// positive, the days before that year in the Gregorian count, plus the
/// day of the year, less the shift's days.
pub open spec fn julian_day_of(year: i32, month: u8, day: u8) -> i32 {
    let a = year + 999_999;
    let c = a / 100;
    (1461 * a / 4 - c + c / 4 + ordinal_day(year as int, month as int, day as int) - 363_521_075) as i32
}

/// What `time::OffsetDateTime::parse` with the RFC 3339 description gives
/// for a text, as Unix nanoseconds (`None` when it does not parse).
pub uninterp spec fn rfc3339_nanos(text: Seq<char>) -> Option<i128>;

fn days_before_month_exec(year: i32, month: u8) -> (r: u16)
    requires
        1 <= month <= 12,
    ensures
        r == days_before_month(year as int, month as int),
{
    let common: u16 = if month == 1 {
        0
    } else if month == 2 {
        31
    } else if month == 3 {
        59
    } else if month == 4 {
        90
    } else if month == 5 {
        120
    } else if month == 6 {
        151
    } else if month == 7 {
        181
    } else if month == 8 {
        212
    } else if month == 9 {
        243
    } else if month == 10 {
        273
    } else if month == 11 {
        304
    } else {
        334
    };
    if month > 2 && is_leap_year_exec(year) {
        common + 1
    } else {
        common
    }
}

/// The Julian day number of a valid date.
fn julian_day(date: CalendarDate) -> (r: i32)
    requires
        valid_date(date),
    ensures
        r == julian_day_of(date.year, date.month, date.day),
{
    let ordinal: i64 = days_before_month_exec(date.year, date.month) as i64 + date.day as i64;
    let a: i64 = date.year as i64 + 999_999;
    let c: i64 = a / 100;
    let days: i64 = 1461 * a / 4 - c + c / 4 + ordinal - 363_521_075;
    assert(1461 * a / 4 <= 1461 * 1_009_998 / 4) by (nonlinear_arith)
        requires
            0 <= a <= 1_009_998,
    ;
    assert(1461 * a / 4 >= 1461 * 989_990 / 4) by (nonlinear_arith)
        requires
            989_990 <= a,
    ;
    days as i32
}

/// `time::OffsetDateTime::parse(text, &Rfc3339)`, read as Unix nanoseconds
/// (`unix_timestamp_nanos`); `None` when the text is not RFC 3339. The
/// contract names the result as a function of the text.
#[verifier::external_body]
fn parse_rfc3339_nanos(text: &str) -> (r: Option<i128>)
    ensures
        r == rfc3339_nanos(text@),
{
    match time::OffsetDateTime::parse(text, &time::format_description::well_known::Rfc3339) {
        Ok(t) => Some(t.unix_timestamp_nanos()),
        Err(_) => None,
    }
}

/// The first day of Unix time.
pub open spec fn unix_epoch() -> CalendarDate {
    CalendarDate { year: 1970, month: 1, day: 1 }
}

/// Unix nanoseconds of a UTC date and time of day: whole days since the
/// epoch's Julian day, plus the time of day.
pub open spec fn unix_nanos_of(date: CalendarDate, nanos_of_day: u64) -> int {
    (julian_day_of(date.year, date.month, date.day) as int - julian_day_of(1970, 1, 1) as int)
        * NANOS_PER_DAY + nanos_of_day
}

/// A moment in UTC: its Unix time in nanoseconds, its date and its time of
/// day.
#[derive(Debug, Clone, Copy, PartialEq, Eq, Structural)]
pub struct UtcMoment {
    pub unix_nanos: i128,
    pub date: CalendarDate,
    pub nanos_of_day: u64,
}

/// The three parts describe the same moment.
pub open spec fn moment_ok(m: UtcMoment) -> bool {
    &&& valid_date(m.date)
    &&& m.nanos_of_day < NANOS_PER_DAY
    &&& m.unix_nanos == unix_nanos_of(m.date, m.nanos_of_day)
}

fn unix_nanos(date: CalendarDate, nanos_of_day: u64) -> (r: i128)
    requires
        valid_date(date),
        nanos_of_day < NANOS_PER_DAY,
    ensures
        r == unix_nanos_of(date, nanos_of_day),
{
    let epoch = julian_day(CalendarDate { year: 1970, month: 1, day: 1 });
    let day = julian_day(date);
    let days: i128 = day as i128 - epoch as i128;
    assert(-0x1_0000_0000 <= days <= 0x1_0000_0000);
    assert(days * (NANOS_PER_DAY as i128) <= 0x1_0000_0000 * 86_400_000_000_000) by (nonlinear_arith)
        requires
            days <= 0x1_0000_0000,
    ;
    assert(days * (NANOS_PER_DAY as i128) >= -0x1_0000_0000 * 86_400_000_000_000) by (nonlinear_arith)
        requires
            days >= -0x1_0000_0000,
    ;
    days * (NANOS_PER_DAY as i128) + nanos_of_day as i128
}

impl UtcMoment {
    /// The moment at a UTC date and time of day.
    pub fn from_utc(date: CalendarDate, nanos_of_day: u64) -> (m: Self)
        requires
            valid_date(date),
            nanos_of_day < NANOS_PER_DAY,
        ensures
            m.date == date,
            m.nanos_of_day == nanos_of_day,
            moment_ok(m),
    {
        UtcMoment { unix_nanos: unix_nanos(date, nanos_of_day), date, nanos_of_day }
    }
}

/// The moment before which sessions expire: none for `Never`; the given
/// number of days (of 86 400 s) earlier; or the same time of day on the
/// date that many calendar months earlier.
pub open spec fn cutoff_nanos(retention: SessionRetention, now: UtcMoment) -> Option<int> {
    match retention {
        SessionRetention::Never => None,
        SessionRetention::Days(days) => Some(now.unix_nanos - days * NANOS_PER_DAY),
        SessionRetention::Months(months) => Some(
            unix_nanos_of(spec_subtract_months(now.date, months), now.nanos_of_day),
        ),
    }
}

/// Whether stepping back `retention` from `now` stays in the years the
/// calendar holds.
pub open spec fn cutoff_in_range(retention: SessionRetention, now: UtcMoment) -> bool {
    match retention {
        SessionRetention::Months(months) => -9999 <= target_month_index(now.date, months) / 12 <= 9999,
        _ => true,
    }
}

/// The retention cutoff for `now`, in Unix nanoseconds.
pub fn retention_cutoff(retention: SessionRetention, now: &UtcMoment) -> (r: Option<i128>)
    requires
        moment_ok(*now),
        cutoff_in_range(retention, *now),
    ensures
        match cutoff_nanos(retention, *now) {
            Some(c) => r matches Some(x) && x as int == c,
            None => r is None,
        },
{
    match retention {
        SessionRetention::Never => None,
        SessionRetention::Days(days) => {
            let span: i128 = days as i128 * NANOS_PER_DAY as i128;
            assert(days as i128 * (NANOS_PER_DAY as i128) <= 0xffff_ffff_ffff_ffff * 86_400_000_000_000) by (nonlinear_arith)
                requires
                    days <= 0xffff_ffff_ffff_ffff,
            ;
            let base = now.unix_nanos;
            assert(-0x1_0000_0000 * 86_400_000_000_000 - 86_400_000_000_000 <= base <= 0x1_0000_0000 * 86_400_000_000_000 + 86_400_000_000_000) by {
                let jd = julian_day_of(now.date.year, now.date.month, now.date.day) as int;
                let je = julian_day_of(1970, 1, 1) as int;
                assert((jd - je) * NANOS_PER_DAY <= 0x1_0000_0000 * 86_400_000_000_000) by (nonlinear_arith)
                    requires
                        jd - je <= 0x1_0000_0000,
                ;
                assert((jd - je) * NANOS_PER_DAY >= -0x1_0000_0000 * 86_400_000_000_000) by (nonlinear_arith)
                    requires
                        jd - je >= -0x1_0000_0000,
                ;
            }
            Some(base - span)
        },
        SessionRetention::Months(months) => {
            let date = subtract_months(now.date, months);
            Some(unix_nanos(date, now.nanos_of_day))
        },
    }
}

/// Whether a session last updated at `updated_at` has expired: none when
/// nothing expires or the time does not parse; else whether it is before
/// the cutoff.
pub open spec fn expired(updated_at: Seq<char>, retention: SessionRetention, now: UtcMoment) -> Option<bool> {
    match cutoff_nanos(retention, now) {
        None => None,
        Some(c) => match rfc3339_nanos(updated_at) {
            None => None,
            Some(u) => Some(u < c),
        },
    }
}

/// Whether the session should go under the retention policy.
pub fn is_expired(updated_at: &str, retention: SessionRetention, now: &UtcMoment) -> (r: Option<bool>)
    requires
        moment_ok(*now),
        cutoff_in_range(retention, *now),
    ensures
        r == expired(updated_at@, retention, *now),
{
    let cutoff = match retention_cutoff(retention, now) {
        Some(c) => c,
        None => {
            return None;
        },
    };
    let updated = match parse_rfc3339_nanos(updated_at) {
        Some(u) => u,
        None => {
            return None;
        },
    };
    Some(updated < cutoff)
}

/// The timestamp of a session, in Unix nanoseconds, when it is RFC 3339.
pub fn parse_session_timestamp(value: &str) -> (r: Option<i128>)
    ensures
        r == rfc3339_nanos(value@),
{
    parse_rfc3339_nanos(value)
}

} // verus!
