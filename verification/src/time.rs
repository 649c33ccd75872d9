//! Points in time, and what clocks and calendars say about them.
use vstd::prelude::*;

use crate::text;

verus! {

/// The first second, counted from the Unix epoch, that the calendar covers.
pub const MIN_SECS: i64 = -8334601228800;

/// The last second that the calendar covers.
pub const MAX_SECS: i64 = 8210266876799;

/// The first day, counted from the Unix epoch, that the calendar covers.
pub const MIN_DAY: i32 = -96465292;

/// The last day that the calendar covers.
pub const MAX_DAY: i32 = 95026236;

/// The nanoseconds of a second.
pub open spec fn second() -> int {
    1_000_000_000
}

/// The nanoseconds of a minute.
pub open spec fn minute() -> int {
    60_000_000_000
}

/// How many whole units fit into `amount`, rounded towards zero.
pub open spec fn whole(amount: int, unit: int) -> int {
    if amount >= 0 {
        amount / unit
    } else {
        -((-amount) / unit)
    }
}

/// What is left of `amount` beyond its whole units, with the sign of `amount`.
pub open spec fn rest(amount: int, unit: int) -> int {
    amount - unit * whole(amount, unit)
}

/// A point in time, to the nanosecond. Its view is the number of nanoseconds
/// since the Unix epoch.
#[derive(Clone, Copy, Debug)]
pub struct Timestamp {
    secs: i64,
    nanos: u32,
}

impl View for Timestamp {
    type V = int;

    closed spec fn view(&self) -> int {
        self.secs * second() + self.nanos
    }
}

/// Whether the point in time `t` comes before the end of the calendar.
pub open spec fn covered(t: int) -> bool {
    t < (MAX_SECS + 1) * second()
}

impl Timestamp {
    #[verifier::type_invariant]
    spec fn in_range(self) -> bool {
        &&& MIN_SECS <= self.secs <= MAX_SECS
        &&& self.nanos < 1_000_000_000
    }

    /// The point in time `nanos` nanoseconds after second `secs` of the epoch,
    /// where the calendar covers it.
    pub fn new(secs: i64, nanos: u32) -> (t: Option<Timestamp>)
        ensures
            match t {
                Some(t) => t@ == secs * second() + nanos,
                None => nanos >= 1_000_000_000 || secs < MIN_SECS || secs > MAX_SECS,
            },
            t is Some <==> nanos < 1_000_000_000 && MIN_SECS <= secs <= MAX_SECS,
    {
        if nanos < 1_000_000_000 && MIN_SECS <= secs && secs <= MAX_SECS {
            Some(Timestamp { secs, nanos })
        } else {
            None
        }
    }

    /// The whole seconds since the epoch.
    pub fn secs(&self) -> (secs: i64)
        ensures
            secs == self@ / second(),
            MIN_SECS <= secs <= MAX_SECS,
    {
        proof {
            use_type_invariant(self);
        }
        self.secs
    }

    /// The nanoseconds beyond the whole seconds.
    pub fn subsec_nanos(&self) -> (nanos: u32)
        ensures
            nanos == self@ % second(),
    {
        proof {
            use_type_invariant(self);
        }
        self.nanos
    }

    /// Whether the calendar covers the time that comes `minutes` later.
    pub fn fits_minutes(&self, minutes: u32) -> (yes: bool)
        ensures
            yes == covered(self@ + minutes * minute()),
    {
        proof {
            use_type_invariant(self);
        }
        self.secs + minutes as i64 * 60 <= MAX_SECS
    }

    /// The time that comes `minutes` later.
    pub fn plus_minutes(&self, minutes: u32) -> (later: Timestamp)
        requires
            covered(self@ + minutes * minute()),
        ensures
            later@ == self@ + minutes * minute(),
    {
        proof {
            use_type_invariant(self);
        }
        Timestamp { secs: self.secs + minutes as i64 * 60, nanos: self.nanos }
    }

    /// Whether this time is not before `other`.
    pub fn reached(&self, other: &Timestamp) -> (yes: bool)
        ensures
            yes == (self@ >= other@),
    {
        proof {
            use_type_invariant(self);
            use_type_invariant(other);
        }
        self.secs > other.secs || (self.secs == other.secs && self.nanos >= other.nanos)
    }

    /// The whole seconds from `earlier` to this time, rounded towards zero.
    pub fn seconds_since(&self, earlier: &Timestamp) -> (n: i64)
        ensures
            n == whole(self@ - earlier@, second()),
            -20_000_000_000_000 <= n <= 20_000_000_000_000,
    {
        proof {
            use_type_invariant(self);
            use_type_invariant(earlier);
        }
        let secs: i64 = self.secs - earlier.secs;
        if secs > 0 && self.nanos < earlier.nanos {
            secs - 1
        } else if secs < 0 && self.nanos > earlier.nanos {
            secs + 1
        } else {
            secs
        }
    }
}

/// `n` divided by `unit`, rounded towards zero.
pub fn whole_units(n: i64, unit: i64) -> (q: i64)
    requires
        unit > 0,
        n > i64::MIN,
    ensures
        q == whole(n as int, unit as int),
{
    if n >= 0 {
        n / unit
    } else {
        let q: i64 = (-n) / unit;
        proof {
            assert(0 <= (-n) as int / unit as int <= -n) by (nonlinear_arith)
                requires
                    n < 0,
                    unit > 0,
            ;
        }
        -q
    }
}

/// How far a local clock is ahead of UTC, in seconds: less than a day.
#[derive(Clone, Copy, Debug)]
pub struct UtcOffset {
    east: i32,
}

impl View for UtcOffset {
    type V = int;

    closed spec fn view(&self) -> int {
        self.east as int
    }
}

impl UtcOffset {
    #[verifier::type_invariant]
    spec fn within_a_day(self) -> bool {
        -86_400 < self.east < 86_400
    }

    /// The offset of a clock `secs` seconds ahead of UTC.
    pub fn east(secs: i32) -> (offset: Option<UtcOffset>)
        ensures
            offset is Some <==> -86_400 < secs < 86_400,
            offset is Some ==> offset->0@ == secs,
    {
        if -86_400 < secs && secs < 86_400 {
            Some(UtcOffset { east: secs })
        } else {
            None
        }
    }

    /// The seconds by which the clock is ahead of UTC.
    pub fn seconds(&self) -> (secs: i32)
        ensures
            secs == self@,
            -86_400 < secs < 86_400,
    {
        proof {
            use_type_invariant(self);
        }
        self.east
    }
}

/// The second, counted from the epoch, that a clock `east` seconds ahead of UTC
/// shows at `t`.
pub open spec fn shown_second(t: int, east: int) -> int {
    t / second() + east
}

/// The day, counted from the epoch, that such a clock shows.
pub open spec fn local_day(t: int, east: int) -> int {
    shown_second(t, east) / 86_400
}

/// The minute of the day that such a clock shows.
pub open spec fn local_minute(t: int, east: int) -> int {
    shown_second(t, east) % 86_400 / 60
}

/// The time of day on a clock `east` seconds ahead of UTC, such as `06:05`.
pub open spec fn clock_text(t: int, east: int) -> Seq<char> {
    text::two_digits((local_minute(t, east) / 60) as nat) + ":"@ + text::two_digits(
        (local_minute(t, east) % 60) as nat,
    )
}

/// An offset from UTC, such as `+02:00`; seconds are shown where there are any.
pub open spec fn offset_text(east: int) -> Seq<char> {
    let size = if east < 0 {
        -east
    } else {
        east
    };
    (if east < 0 {
        "-"@
    } else {
        "+"@
    }) + text::two_digits((size / 3600) as nat) + ":"@ + text::two_digits(
        (size / 60 % 60) as nat,
    ) + (if size % 60 == 0 {
        ""@
    } else {
        ":"@ + text::two_digits((size % 60) as nat)
    })
}

/// The time of day and the offset of such a clock, such as `06:05 +02:00`.
pub open spec fn zoned_clock_text(t: int, east: int) -> Seq<char> {
    clock_text(t, east) + " "@ + offset_text(east)
}

impl Timestamp {
    /// The hour and the minute that a clock with the given offset shows.
    pub fn local_time(&self, offset: &UtcOffset) -> (time: (u32, u32))
        ensures
            time.0 == local_minute(self@, offset@) / 60,
            time.1 == local_minute(self@, offset@) % 60,
            time.0 < 24,
            time.1 < 60,
    {
        let shown: i64 = self.secs() + offset.seconds() as i64;
        let second_of_day: i64 = (shown + 17_280_000_000_000) % 86_400;
        assert(second_of_day == shown as int % 86_400);
        let minute_of_day: i64 = second_of_day / 60;
        assert(minute_of_day == local_minute(self@, offset@));
        ((minute_of_day / 60) as u32, (minute_of_day % 60) as u32)
    }

    /// The day that a clock with the given offset shows.
    pub fn local_day(&self, offset: &UtcOffset) -> (day: i32)
        ensures
            day == local_day(self@, offset@),
            MIN_DAY - 1 <= day <= MAX_DAY + 1,
    {
        let days: i64 = (self.secs() + offset.seconds() as i64 + 17_280_000_000_000) / 86_400;
        (days - 200_000_000) as i32
    }

    /// The time of day on a clock with the given offset.
    pub fn clock(&self, offset: &UtcOffset) -> (text: String)
        ensures
            text@ == clock_text(self@, offset@),
    {
        let nanos: u32 = self.subsec_nanos();
        let secs: i64 = self.secs();
        assert(self@ == secs * second() + nanos);
        proof {
            reveal_strlit("%H:%M");
            reveal_strlit("%H:%M %Z");
        }
        format_local(secs, nanos, offset.seconds(), "%H:%M")
    }

    /// The time of day and the offset of a clock.
    pub fn zoned_clock(&self, offset: &UtcOffset) -> (text: String)
        ensures
            text@ == zoned_clock_text(self@, offset@),
    {
        let nanos: u32 = self.subsec_nanos();
        let secs: i64 = self.secs();
        assert(self@ == secs * second() + nanos);
        proof {
            reveal_strlit("%H:%M");
            reveal_strlit("%H:%M %Z");
        }
        format_local(secs, nanos, offset.seconds(), "%H:%M %Z")
    }
}

/// Calls `chrono::DateTime::format` on the point in time that `secs` and `nanos`
/// give, put into the fixed offset `east` by `DateTime::with_timezone`, and
/// turns the result into text. Claimed of it: `%H` and `%M` give the hour and
/// the minute of the local time with two digits each, `%Z` gives the fixed
/// offset as sign, hours and minutes, and seconds where there are any, and other
/// characters stand for themselves. The points in time and the offsets that
/// chrono does not accept are left out.
#[verifier::external_body]
fn format_local(secs: i64, nanos: u32, east: i32, pattern: &str) -> (text: String)
    requires
        MIN_SECS <= secs <= MAX_SECS,
        nanos < 1_000_000_000,
        -86_400 < east < 86_400,
        pattern@ == "%H:%M"@ || pattern@ == "%H:%M %Z"@,
    ensures
        pattern@ == "%H:%M"@ ==> text@ == clock_text(secs * second() + nanos, east as int),
        pattern@ == "%H:%M %Z"@ ==> text@ == zoned_clock_text(secs * second() + nanos, east as int),
{
    let utc = chrono::DateTime::from_timestamp(secs, nanos).unwrap();
    let zone = chrono::FixedOffset::east_opt(east).unwrap();
    utc.with_timezone(&zone).format(pattern).to_string()
}

/// Whether a year of the Gregorian calendar has a 29th of February.
pub open spec fn is_leap(year: int) -> bool {
    year % 4 == 0 && (year % 100 != 0 || year % 400 == 0)
}

/// The days of a common year before the first of a month.
pub open spec fn days_before(month: int) -> int {
    seq![0int, 31, 59, 90, 120, 151, 181, 212, 243, 273, 304, 334, 365][month - 1]
}

/// Whether there is such a date.
pub open spec fn is_date(year: int, month: int, day: int) -> bool {
    &&& 1 <= month <= 12
    &&& 1 <= day <= days_before(month + 1) - days_before(month) + (if month == 2 && is_leap(year) {
        1int
    } else {
        0
    })
}

/// The days from the epoch to a date: those of the years since 1970, a leap day
/// for each leap year of them that is over, and those of the year itself.
pub open spec fn epoch_day(year: int, month: int, day: int) -> int {
    365 * (year - 1970) + ((year - 1) / 4 - (year - 1) / 100 + (year - 1) / 400 - 477)
        + days_before(month) + (if month > 2 && is_leap(year) {
        1int
    } else {
        0
    }) + day - 1
}

#[verifier::opaque]
spec fn year_start(year: int) -> int {
    365 * (year - 1970) + ((year - 1) / 4 - (year - 1) / 100 + (year - 1) / 400 - 477)
}

spec fn day_of_year(leap: bool, month: int, day: int) -> int {
    days_before(month) + (if month > 2 && leap {
        1int
    } else {
        0
    }) + day - 1
}

spec fn month_len(leap: bool, month: int) -> int {
    days_before(month + 1) - days_before(month) + (if month == 2 && leap {
        1int
    } else {
        0
    })
}

proof fn lemma_epoch_day(year: int, month: int, day: int)
    ensures
        epoch_day(year, month, day) == year_start(year) + day_of_year(is_leap(year), month, day),
        is_date(year, month, day) <==> 1 <= month <= 12 && 1 <= day <= month_len(
            is_leap(year),
            month,
        ),
{
    reveal(year_start);
}

proof fn lemma_year_len(year: int)
    ensures
        year_start(year + 1) == year_start(year) + (if is_leap(year) {
            366int
        } else {
            365
        }),
{
    reveal(year_start);
    assert(year / 4 - (year - 1) / 4 == if year % 4 == 0 {
        1int
    } else {
        0
    });
    assert(year / 100 - (year - 1) / 100 == if year % 100 == 0 {
        1int
    } else {
        0
    });
    assert(year / 400 - (year - 1) / 400 == if year % 400 == 0 {
        1int
    } else {
        0
    });
    assert(year % 100 == 0 ==> year % 4 == 0);
    assert(year % 400 == 0 ==> year % 100 == 0);
}

proof fn lemma_months(leap: bool)
    ensures
        day_of_year(leap, 1, 1) == 0,
        day_of_year(leap, 12, month_len(leap, 12)) == if leap {
            365int
        } else {
            364
        },
        forall|m: int|
            1 <= m < 12 ==> #[trigger] day_of_year(leap, m, month_len(leap, m)) + 1 == day_of_year(
                leap,
                m + 1,
                1,
            ),
        forall|m: int| 1 <= m <= 12 ==> #[trigger] month_len(leap, m) >= 28,
{
}

proof fn lemma_within_year(leap: bool, month: int, day: int)
    requires
        1 <= month <= 12,
        1 <= day <= month_len(leap, month),
    ensures
        0 <= day_of_year(leap, month, day) < if leap {
            366int
        } else {
            365
        },
{
    lemma_months(leap);
}

proof fn lemma_months_in_order(leap: bool, m1: int, d1: int, m2: int, d2: int)
    requires
        1 <= m1 < m2 <= 12,
        1 <= d1 <= month_len(leap, m1),
        1 <= d2 <= month_len(leap, m2),
    ensures
        day_of_year(leap, m1, d1) < day_of_year(leap, m2, d2),
    decreases m2 - m1,
{
    lemma_months(leap);
    assert(day_of_year(leap, m1, month_len(leap, m1)) + 1 == day_of_year(leap, m1 + 1, 1));
    if m1 + 1 < m2 {
        lemma_months_in_order(leap, m1 + 1, 1, m2, d2);
    }
}

proof fn lemma_next_date(year: int, month: int, day: int) -> (next: (int, int, int))
    requires
        is_date(year, month, day),
    ensures
        is_date(next.0, next.1, next.2),
        epoch_day(next.0, next.1, next.2) == epoch_day(year, month, day) + 1,
{
    let leap = is_leap(year);
    lemma_epoch_day(year, month, day);
    lemma_months(leap);
    if day < month_len(leap, month) {
        lemma_epoch_day(year, month, day + 1);
        (year, month, day + 1)
    } else if month < 12 {
        lemma_epoch_day(year, month + 1, 1);
        assert(day_of_year(leap, month, month_len(leap, month)) + 1 == day_of_year(
            leap,
            month + 1,
            1,
        ));
        assert(month_len(leap, month + 1) >= 28);
        (year, month + 1, 1)
    } else {
        lemma_year_len(year);
        lemma_months(is_leap(year + 1));
        lemma_epoch_day(year + 1, 1, 1);
        assert(month_len(is_leap(year + 1), 1) >= 28);
        (year + 1, 1, 1)
    }
}

proof fn lemma_previous_date(year: int, month: int, day: int) -> (previous: (int, int, int))
    requires
        is_date(year, month, day),
    ensures
        is_date(previous.0, previous.1, previous.2),
        epoch_day(previous.0, previous.1, previous.2) == epoch_day(year, month, day) - 1,
{
    let leap = is_leap(year);
    lemma_epoch_day(year, month, day);
    lemma_months(leap);
    if day > 1 {
        lemma_epoch_day(year, month, day - 1);
        (year, month, day - 1)
    } else if month > 1 {
        let d = month_len(leap, month - 1);
        lemma_epoch_day(year, month - 1, d);
        assert(day_of_year(leap, month - 1, d) + 1 == day_of_year(leap, month, 1));
        (year, month - 1, d)
    } else {
        let d = month_len(is_leap(year - 1), 12);
        lemma_year_len(year - 1);
        lemma_months(is_leap(year - 1));
        lemma_epoch_day(year - 1, 12, d);
        (year - 1, 12, d)
    }
}

proof fn lemma_some_date(day: int) -> (date: (int, int, int))
    ensures
        is_date(date.0, date.1, date.2),
        epoch_day(date.0, date.1, date.2) == day,
    decreases
            if day < 0 {
                -day
            } else {
                day
            },
{
    if day > 0 {
        let (y, m, d) = lemma_some_date(day - 1);
        lemma_next_date(y, m, d)
    } else if day < 0 {
        let (y, m, d) = lemma_some_date(day + 1);
        lemma_previous_date(y, m, d)
    } else {
        (1970, 1, 1)
    }
}

proof fn lemma_years_in_order(earlier: int, later: int)
    requires
        earlier < later,
    ensures
        year_start(earlier) + (if is_leap(earlier) {
            366int
        } else {
            365
        }) <= year_start(later),
    decreases later - earlier,
{
    lemma_year_len(later - 1);
    if earlier + 1 < later {
        lemma_years_in_order(earlier, later - 1);
    }
}

/// Every day, counted from the epoch, has a date.
pub proof fn every_day_has_a_date(day: int)
    ensures
        exists|y: int, m: int, d: int| is_date(y, m, d) && #[trigger] epoch_day(y, m, d) == day,
{
    let (y, m, d) = lemma_some_date(day);
    assert(is_date(y, m, d) && epoch_day(y, m, d) == day);
}

/// No two dates are the same day.
pub proof fn dates_are_different_days(
    y1: int,
    m1: int,
    d1: int,
    y2: int,
    m2: int,
    d2: int,
)
    requires
        is_date(y1, m1, d1),
        is_date(y2, m2, d2),
        epoch_day(y1, m1, d1) == epoch_day(y2, m2, d2),
    ensures
        (y1, m1, d1) == (y2, m2, d2),
{
    lemma_epoch_day(y1, m1, d1);
    lemma_epoch_day(y2, m2, d2);
    lemma_within_year(is_leap(y1), m1, d1);
    lemma_within_year(is_leap(y2), m2, d2);
    if y1 < y2 {
        lemma_years_in_order(y1, y2);
    } else if y2 < y1 {
        lemma_years_in_order(y2, y1);
    } else if m1 < m2 {
        lemma_months_in_order(is_leap(y1), m1, d1, m2, d2);
    } else if m2 < m1 {
        lemma_months_in_order(is_leap(y1), m2, d2, m1, d1);
    }
}

/// A year with at least four digits, and with a sign where it is negative or has
/// more than four.
pub open spec fn year_text(year: int) -> Seq<char> {
    let size = if year < 0 {
        -year
    } else {
        year
    };
    (if year < 0 {
        "-"@
    } else if year > 9999 {
        "+"@
    } else {
        ""@
    }) + text::two_digits((size / 100) as nat) + text::two_digits((size % 100) as nat)
}

/// Whether `text` gives the date of a day, counted from the epoch, as year, month
/// and day of the month, such as `2026-05-01`.
pub open spec fn reads_as_date(text: Seq<char>, day: int) -> bool {
    forall|y: int, m: int, d: int|
        is_date(y, m, d) && #[trigger] epoch_day(y, m, d) == day ==> text == year_text(y) + "-"@
            + text::two_digits(m as nat) + "-"@ + text::two_digits(d as nat)
}

/// Calls `chrono::NaiveDate::format` with `%Y-%m-%d` on the date that
/// `NaiveDate::from_epoch_days` gives for `day`. Claimed of it: the text is the
/// year with at least four digits, and with a sign where it is negative or has
/// more, the month with two digits, and the day of the month with two, with
/// hyphens between them. The days that chrono has no date for are left out.
#[verifier::external_body]
pub(crate) fn format_day(day: i32) -> (text: String)
    requires
        MIN_DAY <= day <= MAX_DAY,
    ensures
        reads_as_date(text@, day as int),
{
    chrono::NaiveDate::from_epoch_days(day).unwrap().format("%Y-%m-%d").to_string()
}

} // verus!
