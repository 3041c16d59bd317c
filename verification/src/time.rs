//! Calendar dates, periods, frequencies and day counters.
use vstd::prelude::*;
use vstd::string::*;

use crate::errors::QSError;
use crate::text::{all_digits, is_digit, str_eq};

verus! {

/// Unit in which a [`Period`] is expressed.
#[derive(Clone, Copy, Debug, PartialEq, Eq, Hash, Structural)]
pub enum TimeUnit {
    Days,
    Weeks,
    Months,
    Years,
}

/// Payment / compounding frequency.
#[derive(Clone, Copy, Debug, PartialEq, Eq, Hash, Structural)]
pub enum Frequency {
    NoFrequency,
    Once,
    Annual,
    Semiannual,
    EveryFourthMonth,
    Quarterly,
    Bimonthly,
    Monthly,
    EveryFourthWeek,
    Biweekly,
    Weekly,
    Daily,
    OtherFrequency,
}

/// Day count convention.
#[derive(Clone, Copy, Debug, PartialEq, Eq, Hash, Structural)]
pub enum DayCounter {
    Actual360,
    Actual365,
    Thirty360,
    ActualActual,
}

/// A length of time: `length` units of `units`.
#[derive(Clone, Copy, Debug, PartialEq, Eq, Hash, Structural)]
pub struct Period {
    pub length: i32,
    pub units: TimeUnit,
}

impl Period {
    /// Creates a period of `length` `units`.
    pub fn new(length: i32, units: TimeUnit) -> (p: Period)
        ensures
            p.length == length,
            p.units == units,
    {
        Period { length, units }
    }

    /// Returns the number of units.
    pub fn length(&self) -> (r: i32)
        ensures
            r == self.length,
    {
        self.length
    }

    /// Returns the unit.
    pub fn units(&self) -> (r: TimeUnit)
        ensures
            r == self.units,
    {
        self.units
    }
}

/// Gregorian leap year rule.
pub open spec fn is_leap_year(y: int) -> bool {
    (y % 4 == 0 && y % 100 != 0) || y % 400 == 0
}

/// Number of days of month `m` (1-based) in year `y`.
pub open spec fn days_in_month(y: int, m: int) -> int {
    if m == 2 {
        if is_leap_year(y) {
            29
        } else {
            28
        }
    } else if m == 4 || m == 6 || m == 9 || m == 11 {
        30
    } else {
        31
    }
}

/// A valid date of the proleptic Gregorian calendar between years 1 and 9999.
pub open spec fn is_valid_date(y: int, m: int, d: int) -> bool {
    &&& 1 <= y <= 9999
    &&& 1 <= m <= 12
    &&& 1 <= d <= days_in_month(y, m)
}

/// Days in the years before year `y` (counting from year 1).
pub open spec fn days_before_year(y: int) -> int {
    365 * (y - 1) + (y - 1) / 4 - (y - 1) / 100 + (y - 1) / 400
}

/// Days in the months of year `y` before month `m`.
pub open spec fn days_before_month(y: int, m: int) -> int {
    let base: int = if m == 1 {
        0
    } else if m == 2 {
        31
    } else if m == 3 {
        59
    } else if m == 4 {
        90
    } else if m == 5 {
        120
    } else if m == 6 {
        151
    } else if m == 7 {
        181
    } else if m == 8 {
        212
    } else if m == 9 {
        243
    } else if m == 10 {
        273
    } else if m == 11 {
        304
    } else {
        334
    };
    if m > 2 && is_leap_year(y) {
        base + 1
    } else {
        base
    }
}

/// Serial day number of a date: 0001-01-01 has serial 1.
pub open spec fn serial_of(y: int, m: int, d: int) -> int {
    days_before_year(y) + days_before_month(y, m) + d
}

/// Smallest serial number of a representable date.
pub open spec fn min_serial() -> int {
    serial_of(1, 1, 1)
}

/// Largest serial number of a representable date.
pub open spec fn max_serial() -> int {
    serial_of(9999, 12, 31)
}

/// The representable date with serial number `s`.
pub open spec fn date_of_serial(s: int) -> (int, int, int) {
    choose|t: (int, int, int)| is_valid_date(t.0, t.1, t.2) && serial_of(t.0, t.1, t.2) == s
}

/// The date reached by adding `n` months to `(y, m, d)`, clamping the day to
/// the end of the target month.
pub open spec fn add_months_ymd(y: int, m: int, d: int, n: int) -> (int, int, int) {
    let total = y * 12 + (m - 1) + n;
    let ny = total / 12;
    let nm = total % 12 + 1;
    let nd = if d <= days_in_month(ny, nm) {
        d
    } else {
        days_in_month(ny, nm)
    };
    (ny, nm, nd)
}

/// Total number of months that a period of months or years spans.
pub open spec fn period_months(p: Period) -> int {
    match p.units {
        TimeUnit::Years => p.length * 12,
        _ => p.length as int,
    }
}

/// Total number of days that a period of days or weeks spans.
pub open spec fn period_days(p: Period) -> int {
    match p.units {
        TimeUnit::Weeks => p.length * 7,
        _ => p.length as int,
    }
}

/// True when the period is counted in days (days or weeks).
pub open spec fn is_day_period(p: Period) -> bool {
    p.units == TimeUnit::Days || p.units == TimeUnit::Weeks
}

/// The date `(y, m, d)` moved by period `p`.
pub open spec fn advance_ymd(t: (int, int, int), p: Period) -> (int, int, int) {
    if is_day_period(p) {
        date_of_serial(serial_of(t.0, t.1, t.2) + period_days(p))
    } else {
        add_months_ymd(t.0, t.1, t.2, period_months(p))
    }
}

/// Whether moving `(y, m, d)` by `p` stays within the representable years.
pub open spec fn can_advance_ymd(t: (int, int, int), p: Period) -> bool {
    if is_day_period(p) {
        min_serial() <= serial_of(t.0, t.1, t.2) + period_days(p) <= max_serial()
    } else {
        1 <= add_months_ymd(t.0, t.1, t.2, period_months(p)).0 <= 9999
    }
}

/// Moving to the first day of the next month adds the length of the month.
pub proof fn lemma_next_month_serial(y: int, m: int)
    requires
        1 <= y,
        1 <= m <= 12,
    ensures
        m < 12 ==> serial_of(y, m + 1, 1) == serial_of(y, m, 1) + days_in_month(y, m),
        m == 12 ==> serial_of(y + 1, 1, 1) == serial_of(y, 12, 1) + 31,
{
    if m == 12 {
        lemma_days_before_next_year(y);
    }
}

/// A year has 365 days, plus one in leap years.
pub proof fn lemma_days_before_next_year(y: int)
    requires
        1 <= y,
    ensures
        days_before_year(y + 1) == days_before_year(y) + 365 + (if is_leap_year(y) {
            1int
        } else {
            0int
        }),
{
    let a = y - 1;
    assert(y / 4 == a / 4 + (if y % 4 == 0 {
        1int
    } else {
        0int
    })) by (nonlinear_arith)
        requires
            a == y - 1,
            y >= 1,
    ;
    assert(y / 100 == a / 100 + (if y % 100 == 0 {
        1int
    } else {
        0int
    })) by (nonlinear_arith)
        requires
            a == y - 1,
            y >= 1,
    ;
    assert(y / 400 == a / 400 + (if y % 400 == 0 {
        1int
    } else {
        0int
    })) by (nonlinear_arith)
        requires
            a == y - 1,
            y >= 1,
    ;
}

/// Serial numbers grow with the years.
pub proof fn lemma_days_before_year_mono(y1: int, y2: int)
    requires
        1 <= y1 <= y2,
    ensures
        days_before_year(y1) + 365 * (y2 - y1) <= days_before_year(y2),
    decreases y2 - y1,
{
    if y1 < y2 {
        lemma_days_before_year_mono(y1, y2 - 1);
        lemma_days_before_next_year(y2 - 1);
    }
}

/// Dates are ordered like their serial numbers: an earlier date in
/// (year, month, day) order has a smaller serial number.
pub proof fn lemma_serial_strict_order(t1: (int, int, int), t2: (int, int, int))
    requires
        is_valid_date(t1.0, t1.1, t1.2),
        is_valid_date(t2.0, t2.1, t2.2),
        t1.0 < t2.0 || (t1.0 == t2.0 && t1.1 < t2.1) || (t1.0 == t2.0 && t1.1 == t2.1 && t1.2
            < t2.2),
    ensures
        serial_of(t1.0, t1.1, t1.2) < serial_of(t2.0, t2.1, t2.2),
{
    if t1.0 < t2.0 {
        lemma_days_before_next_year(t1.0);
        lemma_days_before_year_mono(t1.0 + 1, t2.0);
    }
}

/// Two representable dates with the same serial number are the same date.
pub proof fn lemma_serial_injective(t1: (int, int, int), t2: (int, int, int))
    requires
        is_valid_date(t1.0, t1.1, t1.2),
        is_valid_date(t2.0, t2.1, t2.2),
        serial_of(t1.0, t1.1, t1.2) == serial_of(t2.0, t2.1, t2.2),
    ensures
        t1 == t2,
{
    if t1.0 < t2.0 || (t1.0 == t2.0 && t1.1 < t2.1) || (t1.0 == t2.0 && t1.1 == t2.1 && t1.2
        < t2.2) {
        lemma_serial_strict_order(t1, t2);
    } else if t2.0 < t1.0 || (t2.0 == t1.0 && t2.1 < t1.1) || (t2.0 == t1.0 && t2.1 == t1.1
        && t2.2 < t1.2) {
        lemma_serial_strict_order(t2, t1);
    }
}

/// Every representable date lies between the first and last representable serial.
pub proof fn lemma_serial_bounds(t: (int, int, int))
    requires
        is_valid_date(t.0, t.1, t.2),
    ensures
        min_serial() <= serial_of(t.0, t.1, t.2) <= max_serial(),
        serial_of(t.0, t.1, t.2) <= 3652059,
{
    if t != (1int, 1int, 1int) {
        lemma_serial_strict_order((1, 1, 1), t);
    }
    if t != (9999int, 12int, 31int) {
        lemma_serial_strict_order(t, (9999, 12, 31));
    }
}

/// `date_of_serial` inverts `serial_of` on representable dates.
pub proof fn lemma_date_of_serial(t: (int, int, int))
    requires
        is_valid_date(t.0, t.1, t.2),
    ensures
        date_of_serial(serial_of(t.0, t.1, t.2)) == t,
{
    let s = serial_of(t.0, t.1, t.2);
    let c = date_of_serial(s);
    assert(is_valid_date(c.0, c.1, c.2) && serial_of(c.0, c.1, c.2) == s);
    lemma_serial_injective(c, t);
}

/// A calendar date (proleptic Gregorian, years 1 to 9999).
#[derive(Clone, Copy, Debug, PartialEq, Eq, Hash, Structural)]
pub struct Date {
    year: i32,
    month: u32,
    day: u32,
}

impl View for Date {
    type V = (int, int, int);

    closed spec fn view(&self) -> (int, int, int) {
        (self.year as int, self.month as int, self.day as int)
    }
}

/// Exec computation of the number of days in a month.
pub fn month_length(y: i32, m: u32) -> (r: u32)
    requires
        1 <= y <= 9999,
        1 <= m <= 12,
    ensures
        r == days_in_month(y as int, m as int),
{
    if m == 2 {
        if (y % 4 == 0 && y % 100 != 0) || y % 400 == 0 {
            29
        } else {
            28
        }
    } else if m == 4 || m == 6 || m == 9 || m == 11 {
        30
    } else {
        31
    }
}

impl Date {
    #[verifier::type_invariant]
    spec fn inv(self) -> bool {
        is_valid_date(self.year as int, self.month as int, self.day as int)
    }

    /// The serial day number of this date.
    pub open spec fn serial(self) -> int {
        serial_of(self@.0, self@.1, self@.2)
    }

    /// Every date value satisfies the calendar rules.
    pub fn validity(&self)
        ensures
            is_valid_date(self@.0, self@.1, self@.2),
            min_serial() <= self.serial() <= max_serial(),
    {
        proof {
            use_type_invariant(*self);
            lemma_serial_bounds(self@);
        }
    }

    /// Two valid dates are equal exactly when their serial numbers are equal.
    pub proof fn lemma_eq_iff_serial(self, other: Date)
        requires
            is_valid_date(self@.0, self@.1, self@.2),
            is_valid_date(other@.0, other@.1, other@.2),
        ensures
            (self == other) <==> (self.serial() == other.serial()),
    {
        if self.serial() == other.serial() {
            lemma_serial_injective(self@, other@);
        }
    }

    /// A date is determined by its year, month and day.
    pub proof fn lemma_view_injective(self, other: Date)
        requires
            self@ == other@,
        ensures
            self == other,
    {
    }

    /// Creates the date `year-month-day`.
    pub fn new(year: i32, month: u32, day: u32) -> (r: Date)
        requires
            is_valid_date(year as int, month as int, day as int),
        ensures
            r@ == (year as int, month as int, day as int),
    {
        Date { year, month, day }
    }

    /// Creates the date `year-month-day`, or `None` when it is not a valid
    /// calendar date between years 1 and 9999.
    pub fn from_ymd(year: i32, month: u32, day: u32) -> (r: Option<Date>)
        ensures
            r is Some <==> is_valid_date(year as int, month as int, day as int),
            r matches Some(d) ==> d@ == (year as int, month as int, day as int),
    {
        if year < 1 || year > 9999 || month < 1 || month > 12 || day < 1 {
            return None;
        }
        if day > month_length(year, month) {
            return None;
        }
        Some(Date { year, month, day })
    }

    /// Year of the date.
    pub fn year(&self) -> (r: i32)
        ensures
            r == self@.0,
    {
        self.year
    }

    /// Month of the date (1 to 12).
    pub fn month(&self) -> (r: u32)
        ensures
            r == self@.1,
    {
        self.month
    }

    /// Day of the month.
    pub fn day(&self) -> (r: u32)
        ensures
            r == self@.2,
    {
        self.day
    }

    /// Serial day number (0001-01-01 is day 1).
    pub fn serial_number(&self) -> (r: i32)
        ensures
            r == self.serial(),
    {
        proof {
            use_type_invariant(*self);
            lemma_serial_bounds(self@);
        }
        let y: i32 = self.year - 1;
        let before_year: i32 = 365 * y + y / 4 - y / 100 + y / 400;
        let m: u32 = self.month;
        let base: i32 = if m == 1 {
            0
        } else if m == 2 {
            31
        } else if m == 3 {
            59
        } else if m == 4 {
            90
        } else if m == 5 {
            120
        } else if m == 6 {
            151
        } else if m == 7 {
            181
        } else if m == 8 {
            212
        } else if m == 9 {
            243
        } else if m == 10 {
            273
        } else if m == 11 {
            304
        } else {
            334
        };
        let leap: bool = (self.year % 4 == 0 && self.year % 100 != 0) || self.year % 400 == 0;
        let before_month: i32 = if m > 2 && leap {
            base + 1
        } else {
            base
        };
        before_year + before_month + self.day as i32
    }

    /// Number of days from `earlier` to this date (negative when `earlier` is later).
    pub fn days_since(&self, earlier: Date) -> (r: i32)
        ensures
            r == self.serial() - earlier.serial(),
    {
        self.validity();
        earlier.validity();
        self.serial_number() - earlier.serial_number()
    }

    /// Whether this date comes strictly before `other`.
    pub fn is_before(&self, other: Date) -> (r: bool)
        ensures
            r == (self.serial() < other.serial()),
    {
        self.serial_number() < other.serial_number()
    }

    /// The date `n` days later (earlier when `n` is negative).
    pub fn add_days(&self, n: i32) -> (r: Date)
        requires
            min_serial() <= self.serial() + n <= max_serial(),
        ensures
            r.serial() == self.serial() + n,
            r@ == date_of_serial(self.serial() + n),
    {
        proof {
            use_type_invariant(*self);
        }
        let mut y: i32 = self.year;
        let mut m: u32 = self.month;
        let mut d: u32 = self.day;
        let mut rem: i32 = n;
        let ghost target: int = self.serial() + n;
        if n >= 0 {
            while rem > 0
                invariant
                    is_valid_date(y as int, m as int, d as int),
                    rem >= 0,
                    serial_of(y as int, m as int, d as int) + rem == target,
                    target <= max_serial(),
                decreases rem,
            {
                let len: u32 = month_length(y, m);
                if (rem as u32) <= len - d {
                    d = d + rem as u32;
                    rem = 0;
                } else {
                    proof {
                        lemma_next_month_serial(y as int, m as int);
                        if y == 9999 && m == 12 {
                            assert(serial_of(9999, 12, d as int) + (31 - d) == max_serial());
                        }
                    }
                    rem = rem - (len - d + 1) as i32;
                    if m == 12 {
                        y = y + 1;
                        m = 1;
                    } else {
                        m = m + 1;
                    }
                    d = 1;
                }
            }
        } else {
            while rem < 0
                invariant
                    is_valid_date(y as int, m as int, d as int),
                    rem <= 0,
                    serial_of(y as int, m as int, d as int) + rem == target,
                    target >= min_serial(),
                decreases -rem,
            {
                if (d as i32) + rem >= 1 {
                    d = (d as i32 + rem) as u32;
                    rem = 0;
                } else {
                    let ghost oy: int = y as int;
                    let ghost om: int = m as int;
                    rem = rem + d as i32;
                    if m == 1 {
                        proof {
                            if y == 1 {
                                assert(false);
                            }
                            lemma_next_month_serial(y as int - 1, 12);
                        }
                        y = y - 1;
                        m = 12;
                    } else {
                        proof {
                            lemma_next_month_serial(y as int, m as int - 1);
                        }
                        m = m - 1;
                    }
                    d = month_length(y, m);
                }
            }
        }
        let r = Date { year: y, month: m, day: d };
        proof {
            lemma_date_of_serial(r@);
        }
        r
    }

    /// The date `n` months later (earlier when `n` is negative); the day is
    /// clamped to the last day of the target month.
    pub fn add_months(&self, n: i32) -> (r: Date)
        requires
            1 <= add_months_ymd(self@.0, self@.1, self@.2, n as int).0 <= 9999,
        ensures
            r@ == add_months_ymd(self@.0, self@.1, self@.2, n as int),
    {
        proof {
            use_type_invariant(*self);
        }
        let total: i64 = (self.year as i64) * 12 + (self.month as i64 - 1) + n as i64;
        let ny: i64 = total / 12;
        let nm: i64 = total % 12 + 1;
        let y: i32 = ny as i32;
        let m: u32 = nm as u32;
        let len: u32 = month_length(y, m);
        let d: u32 = if self.day <= len {
            self.day
        } else {
            len
        };
        Date { year: y, month: m, day: d }
    }

    /// Whether moving the date by `period` stays within the calendar range.
    pub fn can_advance(&self, period: Period) -> (r: bool)
        ensures
            r == can_advance_ymd(self@, period),
    {
        self.validity();
        match period.units {
            TimeUnit::Days | TimeUnit::Weeks => {
                let days: i64 = if period.units == TimeUnit::Weeks {
                    period.length as i64 * 7
                } else {
                    period.length as i64
                };
                let first = Date::new(1, 1, 1);
                let last = Date::new(9999, 12, 31);
                let s: i64 = self.serial_number() as i64 + days;
                first.serial_number() as i64 <= s && s <= last.serial_number() as i64
            },
            TimeUnit::Months | TimeUnit::Years => {
                let months: i64 = if period.units == TimeUnit::Years {
                    period.length as i64 * 12
                } else {
                    period.length as i64
                };
                let total: i64 = (self.year as i64) * 12 + (self.month as i64 - 1) + months;
                total >= 12 && total < 120000
            },
        }
    }

    /// The date moved by `period`, when it is a date of the calendar range.
    pub fn checked_advance(&self, period: Period) -> (r: Option<Date>)
        ensures
            r is Some <==> can_advance_ymd(self@, period),
            r matches Some(d) ==> d@ == advance_ymd(self@, period),
    {
        if self.can_advance(period) {
            Some(self.advance(period))
        } else {
            None
        }
    }

    /// The date moved by `period`.
    pub fn advance(&self, period: Period) -> (r: Date)
        requires
            can_advance_ymd(self@, period),
        ensures
            r@ == advance_ymd(self@, period),
    {
        self.validity();
        proof {
            lemma_serial_bounds(self@);
        }
        match period.units {
            TimeUnit::Days => self.add_days(period.length),
            TimeUnit::Weeks => {
                let days: i64 = period.length as i64 * 7;
                assert(-3652059 <= days <= 3652059);
                self.add_days(days as i32)
            },
            TimeUnit::Months => self.add_months(period.length),
            TimeUnit::Years => {
                let months: i64 = period.length as i64 * 12;
                proof {
                    let total: int = self@.0 * 12 + (self@.1 - 1) + months;
                    assert(1 <= total / 12 <= 9999);
                    assert(12 <= total < 120000);
                }
                self.add_months(months as i32)
            },
        }
    }
}


/// Value of a sequence of decimal digits.
pub open spec fn digits_value(s: Seq<char>) -> int
    decreases s.len(),
{
    if s.len() == 0 {
        0
    } else {
        digits_value(s.drop_last()) * 10 + (s.last() as int - '0' as int)
    }
}

/// A prefix of a digit sequence has no larger value than the sequence.
pub proof fn lemma_digits_value_prefix(s: Seq<char>, k: int)
    requires
        all_digits(s),
        0 <= k <= s.len(),
    ensures
        0 <= digits_value(s.take(k)) <= digits_value(s),
    decreases s.len(),
{
    if s.len() > 0 {
        assert(is_digit(s[s.len() - 1]));
        lemma_digits_value_prefix(s.drop_last(), if k < s.len() { k } else { s.len() - 1 });
        if k == s.len() {
            assert(s.take(k) =~= s);
        } else {
            assert(s.drop_last().take(k) =~= s.take(k));
        }
    } else {
        assert(s.take(k) =~= s);
    }
}

/// The unit named by a period suffix letter.
pub open spec fn unit_of_letter(c: char) -> Option<TimeUnit> {
    if c == 'D' || c == 'd' {
        Some(TimeUnit::Days)
    } else if c == 'W' || c == 'w' {
        Some(TimeUnit::Weeks)
    } else if c == 'M' || c == 'm' {
        Some(TimeUnit::Months)
    } else if c == 'Y' || c == 'y' {
        Some(TimeUnit::Years)
    } else {
        None
    }
}

/// The period written as a number of units followed by the unit letter
/// (`1Y`, `6M`, `2W`, `10D`); the number fits in an `i32`.
pub open spec fn period_of_text(s: Seq<char>) -> Option<Period> {
    if s.len() >= 2 && all_digits(s.drop_last()) && digits_value(s.drop_last()) <= i32::MAX
        && unit_of_letter(s.last()) is Some {
        Some(Period { length: digits_value(s.drop_last()) as i32, units: unit_of_letter(s.last())->0 })
    } else {
        None
    }
}

fn unit_from_letter(c: char) -> (r: Option<TimeUnit>)
    ensures
        r == unit_of_letter(c),
{
    if c == 'D' || c == 'd' {
        Some(TimeUnit::Days)
    } else if c == 'W' || c == 'w' {
        Some(TimeUnit::Weeks)
    } else if c == 'M' || c == 'm' {
        Some(TimeUnit::Months)
    } else if c == 'Y' || c == 'y' {
        Some(TimeUnit::Years)
    } else {
        None
    }
}

impl Period {
    /// Parses a period written as a number of units followed by the unit
    /// letter, e.g. `3M` or `1Y`.
    pub fn parse(s: &str) -> (r: Result<Period, QSError>)
        ensures
            r is Ok <==> period_of_text(s@) is Some,
            r matches Ok(p) ==> period_of_text(s@) == Some(p),
            r matches Err(e) ==> (e matches QSError::InvalidValue(t) && t@ == s@),
    {
        let n = s.unicode_len();
        if n < 2 {
            return Err(QSError::InvalidValue(s.to_owned()));
        }
        let units = match unit_from_letter(s.get_char(n - 1)) {
            Some(u) => u,
            None => return Err(QSError::InvalidValue(s.to_owned())),
        };
        let ghost d = s@.drop_last();
        let mut value: i64 = 0;
        let mut i: usize = 0;
        while i < n - 1
            invariant
                n == s@.len(),
                n >= 2,
                d == s@.drop_last(),
                i <= n - 1,
                all_digits(d.take(i as int)),
                value == digits_value(d.take(i as int)),
                0 <= value <= i32::MAX,
            decreases n - 1 - i,
        {
            let c = s.get_char(i);
            if !('0' <= c && c <= '9') {
                proof {
                    assert(!is_digit(d[i as int]));
                }
                return Err(QSError::InvalidValue(s.to_owned()));
            }
            proof {
                assert(d.take(i as int + 1).drop_last() =~= d.take(i as int));
            }
            let digit: i64 = (c as u32) as i64 - 48;
            assert(0 <= digit <= 9);
            value = value * 10 + digit;
            if value > i32::MAX as i64 {
                proof {
                    assert forall|k: int| 0 <= k < d.take(i as int + 1).len() implies is_digit(
                        #[trigger] d.take(i as int + 1)[k],
                    ) by {
                        if k < i {
                            assert(d.take(i as int)[k] == d[k]);
                        }
                    }
                    if all_digits(d) {
                        lemma_digits_value_prefix(d, i as int + 1);
                    }
                }
                return Err(QSError::InvalidValue(s.to_owned()));
            }
            proof {
                assert forall|k: int| 0 <= k < d.take(i as int + 1).len() implies is_digit(
                    #[trigger] d.take(i as int + 1)[k],
                ) by {
                    if k < i {
                        assert(d.take(i as int)[k] == d[k]);
                    }
                }
            }
            i = i + 1;
        }
        proof {
            assert(d.take(i as int) =~= d);
        }
        Ok(Period { length: value as i32, units })
    }
}

impl std::str::FromStr for Period {
    type Err = QSError;

    fn from_str(s: &str) -> (r: Result<Period, QSError>)
        ensures
            r is Ok <==> period_of_text(s@) is Some,
            r matches Ok(p) ==> period_of_text(s@) == Some(p),
            r matches Err(e) ==> (e matches QSError::InvalidValue(t) && t@ == s@),
    {
        Period::parse(s)
    }
}

/// The name of a frequency in quote identifiers (none for `OtherFrequency`).
pub open spec fn frequency_of_name(s: Seq<char>) -> Option<Frequency> {
    if s == "Annual"@ {
        Some(Frequency::Annual)
    } else if s == "Semiannual"@ {
        Some(Frequency::Semiannual)
    } else if s == "Quarterly"@ {
        Some(Frequency::Quarterly)
    } else if s == "Monthly"@ {
        Some(Frequency::Monthly)
    } else if s == "Bimonthly"@ {
        Some(Frequency::Bimonthly)
    } else if s == "Biweekly"@ {
        Some(Frequency::Biweekly)
    } else if s == "Weekly"@ {
        Some(Frequency::Weekly)
    } else if s == "Daily"@ {
        Some(Frequency::Daily)
    } else if s == "EveryFourthMonth"@ {
        Some(Frequency::EveryFourthMonth)
    } else if s == "EveryFourthWeek"@ {
        Some(Frequency::EveryFourthWeek)
    } else if s == "Once"@ {
        Some(Frequency::Once)
    } else if s == "NoFrequency"@ {
        Some(Frequency::NoFrequency)
    } else {
        None
    }
}

/// The number that stands for a frequency: its count of periods per year,
/// `-1` for no frequency, `0` for a single payment and `999` for any other.
pub open spec fn frequency_number(f: Frequency) -> int {
    match f {
        Frequency::NoFrequency => -1,
        Frequency::Once => 0,
        Frequency::Annual => 1,
        Frequency::Semiannual => 2,
        Frequency::EveryFourthMonth => 3,
        Frequency::Quarterly => 4,
        Frequency::Bimonthly => 6,
        Frequency::Monthly => 12,
        Frequency::EveryFourthWeek => 13,
        Frequency::Biweekly => 26,
        Frequency::Weekly => 52,
        Frequency::Daily => 365,
        Frequency::OtherFrequency => 999,
    }
}

/// The length of one period of a regular frequency: a year, six, four, three,
/// two or one month(s), four, two or one week(s), or a day; `None` for no
/// frequency, a single payment and any other frequency.
pub open spec fn frequency_period(f: Frequency) -> Option<Period> {
    match f {
        Frequency::Annual => Some(Period { length: 1, units: TimeUnit::Years }),
        Frequency::Semiannual => Some(Period { length: 6, units: TimeUnit::Months }),
        Frequency::EveryFourthMonth => Some(Period { length: 4, units: TimeUnit::Months }),
        Frequency::Quarterly => Some(Period { length: 3, units: TimeUnit::Months }),
        Frequency::Bimonthly => Some(Period { length: 2, units: TimeUnit::Months }),
        Frequency::Monthly => Some(Period { length: 1, units: TimeUnit::Months }),
        Frequency::EveryFourthWeek => Some(Period { length: 4, units: TimeUnit::Weeks }),
        Frequency::Biweekly => Some(Period { length: 2, units: TimeUnit::Weeks }),
        Frequency::Weekly => Some(Period { length: 1, units: TimeUnit::Weeks }),
        Frequency::Daily => Some(Period { length: 1, units: TimeUnit::Days }),
        _ => None,
    }
}

/// The periods per year of a regular frequency are the number of its periods
/// in a year: twelve months divided by the months of a period, or the whole
/// periods in a 365-day year for periods counted in weeks or days. Without a
/// regular period the number is -1 (no frequency), 0 (once) or 999 (other).
pub proof fn lemma_periods_fill_a_year(f: Frequency)
    ensures
        frequency_period(f) matches Some(p) ==> frequency_number(f) > 0 && (if is_day_period(p) {
            frequency_number(f) == 365int / period_days(p)
        } else {
            frequency_number(f) * period_months(p) == 12
        }),
        frequency_period(f) is None ==> (frequency_number(f) == -1 || frequency_number(f) == 0 || frequency_number(f)
            == 999),
{
    if let Some(p) = frequency_period(f) {
        if is_day_period(p) {
            let d = period_days(p);
            assert(d == 28 || d == 14 || d == 7 || d == 1);
            assert(365int / 28 == 13 && 365int / 14 == 26 && 365int / 7 == 52 && 365int / 1 == 365);
        }
    }
}

impl Frequency {
    /// The number that stands for this frequency (see `frequency_number`).
    pub fn periods_per_year(&self) -> (r: i32)
        ensures
            r == frequency_number(*self),
    {
        match self {
            Frequency::NoFrequency => -1,
            Frequency::Once => 0,
            Frequency::Annual => 1,
            Frequency::Semiannual => 2,
            Frequency::EveryFourthMonth => 3,
            Frequency::Quarterly => 4,
            Frequency::Bimonthly => 6,
            Frequency::Monthly => 12,
            Frequency::EveryFourthWeek => 13,
            Frequency::Biweekly => 26,
            Frequency::Weekly => 52,
            Frequency::Daily => 365,
            Frequency::OtherFrequency => 999,
        }
    }

    /// Parses a frequency name (`Annual`, `Semiannual`, `Quarterly`, ...).
    pub fn parse(s: &str) -> (r: Result<Frequency, QSError>)
        ensures
            r is Ok <==> frequency_of_name(s@) is Some,
            r matches Ok(f) ==> frequency_of_name(s@) == Some(f),
            r matches Err(e) ==> (e matches QSError::InvalidValue(t) && t@ == s@),
    {
        if str_eq(s, "Annual") {
            Ok(Frequency::Annual)
        } else if str_eq(s, "Semiannual") {
            Ok(Frequency::Semiannual)
        } else if str_eq(s, "Quarterly") {
            Ok(Frequency::Quarterly)
        } else if str_eq(s, "Monthly") {
            Ok(Frequency::Monthly)
        } else if str_eq(s, "Bimonthly") {
            Ok(Frequency::Bimonthly)
        } else if str_eq(s, "Biweekly") {
            Ok(Frequency::Biweekly)
        } else if str_eq(s, "Weekly") {
            Ok(Frequency::Weekly)
        } else if str_eq(s, "Daily") {
            Ok(Frequency::Daily)
        } else if str_eq(s, "EveryFourthMonth") {
            Ok(Frequency::EveryFourthMonth)
        } else if str_eq(s, "EveryFourthWeek") {
            Ok(Frequency::EveryFourthWeek)
        } else if str_eq(s, "Once") {
            Ok(Frequency::Once)
        } else if str_eq(s, "NoFrequency") {
            Ok(Frequency::NoFrequency)
        } else {
            Err(QSError::InvalidValue(s.to_owned()))
        }
    }
}

impl std::str::FromStr for Frequency {
    type Err = QSError;

    fn from_str(s: &str) -> (r: Result<Frequency, QSError>)
        ensures
            r is Ok <==> frequency_of_name(s@) is Some,
            r matches Ok(f) ==> frequency_of_name(s@) == Some(f),
            r matches Err(e) ==> (e matches QSError::InvalidValue(t) && t@ == s@),
    {
        Frequency::parse(s)
    }
}

} // verus!
