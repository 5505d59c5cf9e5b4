//! The current time, from the `time` crate.

use vstd::prelude::*;

use crate::retention::{unix_nanos_of, valid_date, CalendarDate, UtcMoment, moment_ok, NANOS_PER_DAY};
use crate::text::digit_char;

verus! {

/// The clock read in UTC: Unix nanoseconds, the date and the time of day.
pub struct ClockReading {
    pub unix_nanos: i128,
    pub date: CalendarDate,
    pub hour: u8,
    pub minute: u8,
    pub second: u8,
    pub nanosecond: u32,
}

/// The time of day in nanoseconds.
pub open spec fn day_nanos(hour: int, minute: int, second: int, nanosecond: int) -> int {
    ((hour * 60 + minute) * 60 + second) * 1_000_000_000 + nanosecond
}

/// A reading of a UTC clock: a valid calendar date in 9999 BCE..=9999, a
/// time of day in range, and the Unix time that the date and time of day
/// give.
pub open spec fn reading_ok(r: ClockReading) -> bool {
    &&& valid_date(r.date)
    &&& r.hour < 24 && r.minute < 60 && r.second < 60 && r.nanosecond < 1_000_000_000
    &&& r.unix_nanos == unix_nanos_of(r.date, 0) + day_nanos(
        r.hour as int,
        r.minute as int,
        r.second as int,
        r.nanosecond as int,
    )
}

/// `n` (below 100) as two decimal digits.
pub open spec fn two_digits(n: int) -> Seq<char> {
    seq![digit_char((n / 10) as nat), digit_char((n % 10) as nat)]
}

/// `n` (below 10000) as four decimal digits.
pub open spec fn four_digits(n: int) -> Seq<char> {
    two_digits(n / 100) + two_digits(n % 100)
}

/// `n` (below 10^9) as nine decimal digits.
pub open spec fn nine_digits(n: int) -> Seq<char> {
    seq![digit_char((n / 100_000_000) as nat)] + four_digits((n / 10000) % 10000) + four_digits(n % 10000)
}

/// The text without its trailing `0`s.
pub open spec fn trim_zeros(s: Seq<char>) -> Seq<char>
    decreases s.len(),
{
    if s.len() > 0 && s.last() == '0' {
        trim_zeros(s.drop_last())
    } else {
        s
    }
}

/// The fraction of a second: nothing for a whole second, else `.` and the
/// nine digits of the nanoseconds without trailing zeros.
pub open spec fn fraction_text(nanosecond: int) -> Seq<char> {
    if nanosecond == 0 {
        Seq::empty()
    } else {
        "."@ + trim_zeros(nine_digits(nanosecond))
    }
}

/// RFC 3339 text of a UTC reading: `YYYY-MM-DDTHH:MM:SS`, the fraction,
/// then `Z`.
pub open spec fn rfc3339_utc(r: ClockReading) -> Seq<char> {
    four_digits(r.date.year as int) + "-"@ + two_digits(r.date.month as int) + "-"@ + two_digits(
        r.date.day as int,
    ) + "T"@ + two_digits(r.hour as int) + ":"@ + two_digits(r.minute as int) + ":"@ + two_digits(
        r.second as int,
    ) + fraction_text(r.nanosecond as int) + "Z"@
}

/// `time::OffsetDateTime::now_utc`, read through its getters (`date`,
/// `to_hms_nano`, `unix_timestamp_nanos`) and formatted with
/// `format(&Rfc3339)`. Nothing is stated of which moment it is (that is
/// the clock's); the contract states what the crate's source shows of
/// every value: the reading is a valid UTC reading (see `reading_ok`), and
/// the RFC 3339 text of the same instant is `rfc3339_utc` of it, which the
/// crate fails to write (`None` here) exactly for a year outside 0..=9999.
#[verifier::external_body]
fn read_clock() -> (r: (ClockReading, Option<String>))
    ensures
        reading_ok(r.0),
        match r.1 {
            Some(s) => 0 <= r.0.date.year && s@ == rfc3339_utc(r.0),
            None => r.0.date.year < 0,
        },
{
    let t = time::OffsetDateTime::now_utc();
    let (hour, minute, second, nanosecond) = t.to_hms_nano();
    let reading = ClockReading {
        unix_nanos: t.unix_timestamp_nanos(),
        date: CalendarDate { year: t.year(), month: t.month() as u8, day: t.day() },
        hour,
        minute,
        second,
        nanosecond,
    };
    (reading, t.format(&time::format_description::well_known::Rfc3339).ok())
}

/// The text `now_rfc3339` gives for a reading: its RFC 3339 text, or
/// nothing for a year before 0, which that format cannot write.
pub open spec fn now_text(r: ClockReading) -> Seq<char> {
    if 0 <= r.date.year {
        rfc3339_utc(r)
    } else {
        Seq::empty()
    }
}

/// The current UTC time in RFC 3339 (`YYYY-MM-DDTHH:MM:SS[.fraction]Z`);
/// empty when the year cannot be written in that format.
pub fn now_rfc3339() -> (s: String)
    ensures
        exists|r: ClockReading| #[trigger] reading_ok(r) && s@ == now_text(r),
{
    let (r, text) = read_clock();
    let s = match text {
        Some(t) => t,
        None => String::new(),
    };
    assert(reading_ok(r) && s@ == now_text(r));
    s
}

/// The current moment in UTC.
pub fn now_moment() -> (m: UtcMoment)
    ensures
        moment_ok(m),
{
    let (r, _) = read_clock();
    let nanos: u64 = ((r.hour as u64 * 60 + r.minute as u64) * 60 + r.second as u64) * 1_000_000_000
        + r.nanosecond as u64;
    assert(nanos < NANOS_PER_DAY) by (nonlinear_arith)
        requires
            nanos == ((r.hour as u64 * 60 + r.minute as u64) * 60 + r.second as u64) * 1_000_000_000 + r.nanosecond as u64,
            r.hour < 24,
            r.minute < 60,
            r.second < 60,
            r.nanosecond < 1_000_000_000,
    ;
    UtcMoment { unix_nanos: r.unix_nanos, date: r.date, nanos_of_day: nanos }
}

} // verus!
