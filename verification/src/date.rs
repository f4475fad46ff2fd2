//! Calendar dates counted in days from the start of the year 2000, and
//! spans of days between them.

use crate::text::{append_decimal, decimal};
use std::cmp::Ordering;
use std::ops::{Add, AddAssign, Sub, SubAssign};
use vstd::prelude::*;
use vstd::std_specs::cmp::{PartialEqSpecImpl, PartialOrdSpecImpl};
use vstd::std_specs::ops::{AddSpecImpl, SubSpecImpl};

verus! {

/// A month of the calendar. February has one value for common years and
/// one for leap years, so that a month alone tells its length.
#[derive(Clone, Copy, Debug, PartialEq, Eq, Structural, PartialOrd, Ord)]
pub enum Month {
    Jan,
    Feb,
    FebLeap,
    Mar,
    Apr,
    May,
    Jun,
    Jul,
    Aug,
    Sep,
    Oct,
    Nov,
    Dec,
}

impl Month {
    /// The month with the number `num`, counted from 1, in a year that is
    /// a leap year or not. Meant for `1 <= num <= 12`.
    pub open spec fn of(num: int, leap_year: bool) -> Month {
        if num == 1 {
            Month::Jan
        } else if num == 2 {
            if leap_year {
                Month::FebLeap
            } else {
                Month::Feb
            }
        } else if num == 3 {
            Month::Mar
        } else if num == 4 {
            Month::Apr
        } else if num == 5 {
            Month::May
        } else if num == 6 {
            Month::Jun
        } else if num == 7 {
            Month::Jul
        } else if num == 8 {
            Month::Aug
        } else if num == 9 {
            Month::Sep
        } else if num == 10 {
            Month::Oct
        } else if num == 11 {
            Month::Nov
        } else {
            Month::Dec
        }
    }

    /// The number of days in the month.
    pub open spec fn length(self) -> int {
        match self {
            Month::Jan | Month::Mar | Month::May | Month::Jul | Month::Aug | Month::Oct | Month::Dec => 31,
            Month::Apr | Month::Jun | Month::Sep | Month::Nov => 30,
            Month::Feb => 28,
            Month::FebLeap => 29,
        }
    }

    /// The month with the number `num`, from 1 for January to 12 for
    /// December, in a leap year or in a common year.
    pub fn new(num: u8, leap_year: bool) -> (m: Month)
        requires
            1 <= num <= 12,
        ensures
            m == Month::of(num as int, leap_year),
    {
        match num {
            1 => Month::Jan,
            2 => match leap_year {
                true => Month::FebLeap,
                false => Month::Feb,
            },
            3 => Month::Mar,
            4 => Month::Apr,
            5 => Month::May,
            6 => Month::Jun,
            7 => Month::Jul,
            8 => Month::Aug,
            9 => Month::Sep,
            10 => Month::Oct,
            11 => Month::Nov,
            _ => Month::Dec,
        }
    }

    /// The number of days in the month.
    pub fn get_days(&self) -> (days: u8)
        ensures
            days == self.length(),
    {
        match self {
            Month::Jan
            | Month::Mar
            | Month::May
            | Month::Jul
            | Month::Aug
            | Month::Oct
            | Month::Dec => 31,
            Month::Apr | Month::Jun | Month::Sep | Month::Nov => 30,
            Month::Feb => 28,
            Month::FebLeap => 29,
        }
    }
}

/// The Gregorian rule: a year is a leap year when it is divisible by 4,
/// unless it is divisible by 100 and not by 400.
pub open spec fn is_leap_year(year: int) -> bool {
    year % 4 == 0 && (year % 100 != 0 || year % 400 == 0)
}

/// The number of days in `year`.
pub open spec fn year_length(year: int) -> int {
    if is_leap_year(year) {
        366
    } else {
        365
    }
}

/// The number of days in month `month` of `year`.
pub open spec fn month_length(year: int, month: int) -> int {
    Month::of(month, is_leap_year(year)).length()
}

/// The days in all the years from 2000 up to `year`, which is not counted.
pub open spec fn days_before_year(year: int) -> int
    decreases year,
{
    if year <= 2000 {
        0
    } else {
        days_before_year(year - 1) + year_length(year - 1)
    }
}

/// The days in the months of `year` from January up to `month`, which is
/// not counted.
pub open spec fn days_before_month(year: int, month: int) -> int
    decreases month,
{
    if month <= 1 {
        0
    } else {
        days_before_month(year, month - 1) + month_length(year, month - 1)
    }
}

/// The day count that stands for a date: the day of the month, added to
/// the days of the years and of the months before it. The first of
/// January 2000 has the count 1.
pub open spec fn day_count(year: int, month: int, day: int) -> int {
    day + days_before_year(year) + days_before_month(year, month)
}

/// Whether year, month and day name a day of the calendar, from the year
/// 2000 on.
pub open spec fn is_calendar_date(year: int, month: int, day: int) -> bool {
    &&& 2000 <= year
    &&& 1 <= month <= 12
    &&& 1 <= day <= month_length(year, month)
}

/// The date that a day count stands for when the count starts at 0 on the
/// first of January 2000: the day of the calendar whose `day_count` is one
/// more than `days`.
pub open spec fn date_of(days: nat) -> (int, int, int) {
    choose|year: int, month: int, day: int|
        is_calendar_date(year, month, day) && day_count(year, month, day) == days + 1
}

/// A date as it is written: year, month and day in decimal, without
/// padding, with hyphens between them.
pub open spec fn date_text(year: int, month: int, day: int) -> Seq<char> {
    decimal(year as nat) + seq!['-'] + decimal(month as nat) + seq!['-'] + decimal(day as nat)
}

/// The number of days before a year is never negative.
pub proof fn lemma_days_before_year_nonnegative(year: int)
    ensures
        days_before_year(year) >= 0,
    decreases year,
{
    if year > 2000 {
        lemma_days_before_year_nonnegative(year - 1);
    }
}

/// Later years have more days before them.
pub proof fn lemma_days_before_year_increases(earlier: int, later: int)
    requires
        2000 <= earlier < later,
    ensures
        days_before_year(earlier) + year_length(earlier) <= days_before_year(later),
    decreases later,
{
    if earlier + 1 < later {
        lemma_days_before_year_increases(earlier, later - 1);
    }
}

/// Later months of a year have more days before them.
pub proof fn lemma_days_before_month_increases(year: int, earlier: int, later: int)
    requires
        1 <= earlier < later,
    ensures
        days_before_month(year, earlier) + month_length(year, earlier) <= days_before_month(
            year,
            later,
        ),
    decreases later,
{
    if earlier + 1 < later {
        lemma_days_before_month_increases(year, earlier, later - 1);
    }
}

/// The twelve months of a year hold all its days.
pub proof fn lemma_months_fill_year(year: int)
    ensures
        days_before_month(year, 13) == year_length(year),
{
    reveal_with_fuel(days_before_month, 14);
}

/// The day count of a calendar date lies within its year and its month.
pub proof fn lemma_day_count_bounds(year: int, month: int, day: int)
    requires
        is_calendar_date(year, month, day),
    ensures
        days_before_year(year) < day_count(year, month, day) <= days_before_year(year + 1),
        day_count(year, month, day) <= days_before_year(year) + days_before_month(year, month + 1),
{
    lemma_months_fill_year(year);
    if month < 12 {
        lemma_days_before_month_increases(year, month, 13);
    }
    if month > 1 {
        lemma_days_before_month_increases(year, 1, month);
    }
}

/// Whether the first date comes before the second in the calendar.
pub open spec fn date_before(
    year1: int,
    month1: int,
    day1: int,
    year2: int,
    month2: int,
    day2: int,
) -> bool {
    if year1 != year2 {
        year1 < year2
    } else if month1 != month2 {
        month1 < month2
    } else {
        day1 < day2
    }
}

/// The order of instants is the order of time: of two calendar dates the
/// earlier one has the smaller day count.
pub proof fn lemma_day_count_increases(
    year1: int,
    month1: int,
    day1: int,
    year2: int,
    month2: int,
    day2: int,
)
    requires
        is_calendar_date(year1, month1, day1),
        is_calendar_date(year2, month2, day2),
        date_before(year1, month1, day1, year2, month2, day2),
    ensures
        day_count(year1, month1, day1) < day_count(year2, month2, day2),
{
    lemma_day_count_bounds(year1, month1, day1);
    lemma_day_count_bounds(year2, month2, day2);
    if year1 < year2 {
        lemma_days_before_year_increases(year1, year2);
    } else if month1 < month2 {
        lemma_days_before_month_increases(year1, month1, month2);
    }
}

/// Two calendar dates with the same day count are the same date.
pub proof fn lemma_day_count_injective(
    year1: int,
    month1: int,
    day1: int,
    year2: int,
    month2: int,
    day2: int,
)
    requires
        is_calendar_date(year1, month1, day1),
        is_calendar_date(year2, month2, day2),
        day_count(year1, month1, day1) == day_count(year2, month2, day2),
    ensures
        year1 == year2,
        month1 == month2,
        day1 == day2,
{
    if date_before(year1, month1, day1, year2, month2, day2) {
        lemma_day_count_increases(year1, month1, day1, year2, month2, day2);
    } else if date_before(year2, month2, day2, year1, month1, day1) {
        lemma_day_count_increases(year2, month2, day2, year1, month1, day1);
    }
}

/// `date_of` is the one calendar date with the day count `days + 1`.
pub proof fn lemma_date_of_unique(days: nat, year: int, month: int, day: int)
    requires
        is_calendar_date(year, month, day),
        day_count(year, month, day) == days + 1,
    ensures
        date_of(days) == (year, month, day),
{
    let found = date_of(days);
    lemma_day_count_injective(found.0, found.1, found.2, year, month, day);
}

/// The day that follows a calendar date.
pub open spec fn day_after(year: int, month: int, day: int) -> (int, int, int) {
    if day < month_length(year, month) {
        (year, month, day + 1)
    } else if month < 12 {
        (year, month + 1, 1)
    } else {
        (year + 1, 1, 1)
    }
}

/// The day after a calendar date is a calendar date, and its day count
/// is one more.
pub proof fn lemma_day_after(year: int, month: int, day: int)
    requires
        is_calendar_date(year, month, day),
    ensures
        ({
            let next = day_after(year, month, day);
            is_calendar_date(next.0, next.1, next.2) && day_count(next.0, next.1, next.2)
                == day_count(year, month, day) + 1
        }),
{
    lemma_months_fill_year(year);
}

/// Every day count is the count of a calendar date: `date_of` names a day
/// of the calendar, and `day_count` of that day is `days + 1`. So
/// `from_date` of what `to_date` returns is the instant one day later.
pub proof fn lemma_day_count_of_date(days: nat)
    ensures
        is_calendar_date(date_of(days).0, date_of(days).1, date_of(days).2),
        day_count(date_of(days).0, date_of(days).1, date_of(days).2) == days + 1,
    decreases days,
{
    if days == 0 {
        assert(is_calendar_date(2000, 1, 1) && day_count(2000, 1, 1) == 1);
    } else {
        let before = date_of((days - 1) as nat);
        lemma_day_count_of_date((days - 1) as nat);
        lemma_day_after(before.0, before.1, before.2);
        let next = day_after(before.0, before.1, before.2);
        assert(is_calendar_date(next.0, next.1, next.2) && day_count(next.0, next.1, next.2)
            == days + 1);
    }
}

/// A calendar date is read back from its day count less one: the instant
/// one day before `from_date(year, month, day)` has the date
/// `(year, month, day)`.
pub proof fn lemma_date_of_day_count(year: int, month: int, day: int)
    requires
        is_calendar_date(year, month, day),
    ensures
        day_count(year, month, day) >= 1,
        date_of((day_count(year, month, day) - 1) as nat) == (year, month, day),
{
    lemma_day_count_bounds(year, month, day);
    lemma_days_before_year_nonnegative(year);
    lemma_date_of_unique((day_count(year, month, day) - 1) as nat, year, month, day);
}

/// The date of the day count of a calendar date is the day after it:
/// `to_date` of `from_date(year, month, day)` is the following day.
pub proof fn lemma_date_of_day_count_is_day_after(year: int, month: int, day: int)
    requires
        is_calendar_date(year, month, day),
    ensures
        day_count(year, month, day) >= 1,
        date_of(day_count(year, month, day) as nat) == day_after(year, month, day),
{
    lemma_date_of_day_count(year, month, day);
    lemma_day_after(year, month, day);
    let next = day_after(year, month, day);
    lemma_date_of_unique(day_count(year, month, day) as nat, next.0, next.1, next.2);
}

/// The number of leap years from 2000 up to `year`, which is not counted.
pub open spec fn leap_years_before(year: int) -> int {
    (year - 1) / 4 - (year - 1) / 100 + (year - 1) / 400 - 484
}

/// The days before a year without adding them up year by year: 365 for
/// each year since 2000 and one more for each leap year among them.
pub proof fn lemma_days_before_year_formula(year: int)
    requires
        2000 <= year,
    ensures
        days_before_year(year) == 365 * (year - 2000) + leap_years_before(year),
    decreases year,
{
    if year > 2000 {
        lemma_days_before_year_formula(year - 1);
    }
}

/// The instants that `to_date` takes are those with a count below
/// 23,206,047: the last of them is the 31st of December 65535.
pub proof fn lemma_days_before_year_65536()
    ensures
        days_before_year(65536) == 23206047,
{
    lemma_days_before_year_formula(65536);
}

fn leap(year: u32) -> (b: bool)
    ensures
        b == is_leap_year(year as int),
{
    match (year % 4 != 0, year % 100 != 0, year % 400 != 0) {
        (true, _, _) | (false, false, true) => false,
        _ => true,
    }
}

/// Whether `year` is a leap year.
pub fn leap_year(year: u16) -> (b: bool)
    ensures
        b == is_leap_year(year as int),
{
    leap(year as u32)
}

/// A day, held as a count of days from the start of the year 2000. Its
/// view is that count.
///
/// The two ways between dates and counts do not start at the same count:
/// `from_date` gives the first of January 2000 the count 1, and `to_date`
/// reads the count 0 as that day. So for the instant that `from_date` makes
/// of a date, `to_date` returns the day after that date, and it returns the
/// date itself for the instant one day earlier.
#[derive(Clone, Copy, Debug, Eq, Ord)]
pub struct DateInstant {
    days: u32,  // Since 2000-01-01 (Y-M-D)
}

impl View for DateInstant {
    type V = nat;

    closed spec fn view(&self) -> nat {
        self.days as nat
    }
}

impl DateInstant {
    /// The instant with the count `days`. Meant for a count that a
    /// `DateInstant` can hold.
    pub closed spec fn of_days(days: int) -> DateInstant {
        DateInstant { days: days as u32 }
    }

    /// An instant is known by its count: `of_days` and the view undo each
    /// other.
    pub proof fn lemma_of_days(d: DateInstant, days: int)
        ensures
            DateInstant::of_days(d@ as int) == d,
            d@ <= u32::MAX,
            0 <= days <= u32::MAX ==> DateInstant::of_days(days)@ == days,
    {
    }

    /// The instant with the count `days`.
    pub fn new(days: u32) -> (d: Self)
        ensures
            d@ == days,
            d == DateInstant::of_days(days as int),
    {
        DateInstant { days }
    }

    /// The instant whose count is `day_count(year, month, day)`. The day
    /// is not held against the length of the month: a day past its end
    /// counts on into the months that follow.
    pub fn from_date(year: u16, month: u8, day: u8) -> (d: Self)
        requires
            year >= 2000,
            1 <= month <= 12,
            1 <= day <= 31,
        ensures
            d@ == day_count(year as int, month as int, day as int),
    {
        let mut days: u32 = day as u32;
        let mut y: u16 = 2000;
        while y < year
            invariant
                2000 <= y <= year,
                days == day + days_before_year(y as int),
                days <= 31 + 366 * (y - 2000),
            decreases year - y,
        {
            days = match leap_year(y) {
                true => days + 366,
                false => days + 365,
            };
            y += 1;
        }
        let leap = leap_year(year);
        let mut m: u8 = 1;
        while m < month
            invariant
                1 <= m <= month <= 12,
                leap == is_leap_year(year as int),
                days == day + days_before_year(year as int) + days_before_month(
                    year as int,
                    m as int,
                ),
                days <= 31 + 366 * (year - 2000) + 31 * (m - 1),
            decreases month - m,
        {
            days = days + Month::new(m, leap).get_days() as u32;
            m += 1;
        }
        DateInstant::new(days)
    }

    /// The date of the instant, with a year as wide as the count allows.
    fn to_calendar(self) -> (date: (u32, u8, u8))
        ensures
            is_calendar_date(date.0 as int, date.1 as int, date.2 as int),
            day_count(date.0 as int, date.1 as int, date.2 as int) == self@ + 1,
            (date.0 as int, date.1 as int, date.2 as int) == date_of(self@),
    {
        // If leap year and rem >= 366, add one year
        // If normal year and rem >= 365, add one year
        // Repeat
        // Check days in month, if rem >= days, add month
        // Repeat
        // Add remaining to days
        let mut year: u32 = 2000;
        let mut month: u8 = 1;
        let mut rem: u32 = self.days;

        loop
            invariant
                2000 <= year,
                days_before_year(year as int) + rem == self.days,
                365 * (year - 2000) + rem <= self.days,
            ensures
                rem < year_length(year as int),
            decreases rem,
        {
            match (leap(year), rem >= 366, rem >= 365) {
                (true, true, _) => {
                    year += 1;
                    rem -= 366;
                },
                (false, _, true) => {
                    year += 1;
                    rem -= 365;
                },
                _ => break ,
            }
        }

        let ghost in_year = rem;
        let is_leap = leap(year);
        proof {
            lemma_months_fill_year(year as int);
        }
        loop
            invariant
                1 <= month <= 12,
                is_leap == is_leap_year(year as int),
                days_before_month(year as int, month as int) + rem == in_year,
                in_year < days_before_month(year as int, 13),
            ensures
                rem < month_length(year as int, month as int),
            decreases rem,
        {
            let days_in_month = Month::new(month, is_leap).get_days() as u32;
            if rem < days_in_month {
                break ;
            }
            proof {
                if month == 12 {
                    assert(days_before_month(year as int, 13) == days_before_month(year as int, 12)
                        + month_length(year as int, 12));
                }
            }
            month += 1;
            rem -= days_in_month;
        }

        let day: u8 = 1 + rem as u8;
        proof {
            lemma_date_of_unique(self@, year as int, month as int, day as int);
        }
        (year, month, day)
    }

    /// The date of the instant when the count starts at 0 on the first of
    /// January 2000. The year has to fit the result: the instant must lie
    /// before the year 65536.
    pub fn to_date(self) -> (date: (u16, u8, u8))
        requires
            self@ < days_before_year(65536),
        ensures
            is_calendar_date(date.0 as int, date.1 as int, date.2 as int),
            day_count(date.0 as int, date.1 as int, date.2 as int) == self@ + 1,
            (date.0 as int, date.1 as int, date.2 as int) == date_of(self@),
    {
        let (year, month, day) = self.to_calendar();
        proof {
            lemma_day_count_bounds(year as int, month as int, day as int);
            if year > 65536 {
                lemma_days_before_year_increases(65536, year as int);
            }
        }
        (year as u16, month, day)
    }

    /// The date of the instant as text: year, month and day without
    /// padding, as in `2020-7-19`.
    pub fn to_string(&self) -> (s: String)
        ensures
            s@ == date_text(date_of(self@).0, date_of(self@).1, date_of(self@).2),
    {
        let (year, month, day) = self.to_calendar();
        let mut s = String::new();
        append_decimal(&mut s, year as u64);
        s.append("-");
        append_decimal(&mut s, month as u64);
        s.append("-");
        append_decimal(&mut s, day as u64);
        proof {
            reveal_strlit("-");
        }
        s
    }
}

impl Default for DateInstant {
    fn default() -> (d: Self)
        ensures
            d@ == 0,
    {
        DateInstant { days: 0 }
    }
}

impl PartialEq for DateInstant {
    fn eq(&self, other: &Self) -> (r: bool) {
        self.days == other.days
    }
}

impl PartialEqSpecImpl for DateInstant {
    open spec fn obeys_eq_spec() -> bool {
        true
    }

    open spec fn eq_spec(&self, other: &Self) -> bool {
        self@ == other@
    }
}

impl PartialOrd for DateInstant {
    fn partial_cmp(&self, other: &Self) -> (r: Option<Ordering>) {
        if self.days < other.days {
            Some(Ordering::Less)
        } else if self.days == other.days {
            Some(Ordering::Equal)
        } else {
            Some(Ordering::Greater)
        }
    }
}

impl PartialOrdSpecImpl for DateInstant {
    open spec fn obeys_partial_cmp_spec() -> bool {
        true
    }

    open spec fn partial_cmp_spec(&self, other: &Self) -> Option<Ordering> {
        if self@ < other@ {
            Some(Ordering::Less)
        } else if self@ == other@ {
            Some(Ordering::Equal)
        } else {
            Some(Ordering::Greater)
        }
    }
}

impl Sub<DateInstant> for DateInstant {
    type Output = DateDuration;

    /// The span from `self` to `rhs`: the first operand is the earlier
    /// instant and the second the later one. `rhs` must not lie before
    /// `self`, so that no span is negative.
    fn sub(self, rhs: DateInstant) -> (span: DateDuration)
        ensures
            span@ == rhs@ - self@,
    {
        DateDuration::new(rhs.days - self.days)
    }
}

impl SubSpecImpl<DateInstant> for DateInstant {
    open spec fn obeys_sub_spec() -> bool {
        true
    }

    open spec fn sub_req(self, rhs: DateInstant) -> bool {
        self@ <= rhs@
    }

    open spec fn sub_spec(self, rhs: DateInstant) -> DateDuration {
        DateDuration::of_days(rhs@ - self@)
    }
}

impl Sub<DateDuration> for DateInstant {
    type Output = DateInstant;

    /// The instant that lies `rhs` before `self`; it must not lie before
    /// the start of the year 2000.
    fn sub(self, rhs: DateDuration) -> (d: DateInstant)
        ensures
            d@ == self@ - rhs@,
    {
        DateInstant::new(self.days - rhs.days)
    }
}

impl SubSpecImpl<DateDuration> for DateInstant {
    open spec fn obeys_sub_spec() -> bool {
        true
    }

    open spec fn sub_req(self, rhs: DateDuration) -> bool {
        rhs@ <= self@
    }

    open spec fn sub_spec(self, rhs: DateDuration) -> DateInstant {
        DateInstant::of_days(self@ - rhs@)
    }
}

impl SubAssign<DateDuration> for DateInstant {
    /// Moves the instant back by `rhs`, not past the start of the year
    /// 2000.
    fn sub_assign(&mut self, rhs: DateDuration)
        requires
            rhs@ <= old(self)@,
        ensures
            final(self)@ == old(self)@ - rhs@,
    {
        *self = *self - rhs;
    }
}

impl Add<DateDuration> for DateInstant {
    type Output = Self;

    /// The instant that lies `rhs` after `self`.
    fn add(self, rhs: DateDuration) -> (d: DateInstant)
        ensures
            d@ == self@ + rhs@,
    {
        Self::new(self.days + rhs.days)
    }
}

impl AddSpecImpl<DateDuration> for DateInstant {
    open spec fn obeys_add_spec() -> bool {
        true
    }

    open spec fn add_req(self, rhs: DateDuration) -> bool {
        self@ + rhs@ <= u32::MAX
    }

    open spec fn add_spec(self, rhs: DateDuration) -> DateInstant {
        DateInstant::of_days((self@ + rhs@) as int)
    }
}

impl AddAssign<DateDuration> for DateInstant {
    /// Moves the instant on by `rhs`.
    fn add_assign(&mut self, rhs: DateDuration)
        requires
            old(self)@ + rhs@ <= u32::MAX,
        ensures
            final(self)@ == old(self)@ + rhs@,
    {
        *self = *self + rhs;
    }
}

/// A span of whole days. Its view is the number of days.
#[derive(Clone, Copy, Debug, Eq, Ord)]
pub struct DateDuration {
    days: u32,
}

impl View for DateDuration {
    type V = nat;

    closed spec fn view(&self) -> nat {
        self.days as nat
    }
}

impl DateDuration {
    /// The span of `days` days. Meant for a number that a `DateDuration`
    /// can hold.
    pub closed spec fn of_days(days: int) -> DateDuration {
        DateDuration { days: days as u32 }
    }

    /// A span is known by its number of days: `of_days` and the view undo
    /// each other.
    pub proof fn lemma_of_days(span: DateDuration, days: int)
        ensures
            DateDuration::of_days(span@ as int) == span,
            span@ <= u32::MAX,
            0 <= days <= u32::MAX ==> DateDuration::of_days(days)@ == days,
    {
    }

    /// The span of `days` days.
    pub fn new(days: u32) -> (span: Self)
        ensures
            span@ == days,
            span == DateDuration::of_days(days as int),
    {
        DateDuration { days }
    }
}

impl Add<DateDuration> for DateDuration {
    type Output = Self;

    /// The two spans one after the other.
    fn add(self, rhs: DateDuration) -> (span: DateDuration)
        ensures
            span@ == self@ + rhs@,
    {
        Self::new(self.days + rhs.days)
    }
}

impl AddSpecImpl<DateDuration> for DateDuration {
    open spec fn obeys_add_spec() -> bool {
        true
    }

    open spec fn add_req(self, rhs: DateDuration) -> bool {
        self@ + rhs@ <= u32::MAX
    }

    open spec fn add_spec(self, rhs: DateDuration) -> DateDuration {
        DateDuration::of_days((self@ + rhs@) as int)
    }
}

impl AddAssign<DateDuration> for DateDuration {
    /// Lengthens the span by `rhs`.
    fn add_assign(&mut self, rhs: DateDuration)
        requires
            old(self)@ + rhs@ <= u32::MAX,
        ensures
            final(self)@ == old(self)@ + rhs@,
    {
        *self = *self + rhs;
    }
}

impl Default for DateDuration {
    fn default() -> (d: Self)
        ensures
            d@ == 0,
    {
        DateDuration { days: 0 }
    }
}

impl PartialEq for DateDuration {
    fn eq(&self, other: &Self) -> (r: bool) {
        self.days == other.days
    }
}

impl PartialEqSpecImpl for DateDuration {
    open spec fn obeys_eq_spec() -> bool {
        true
    }

    open spec fn eq_spec(&self, other: &Self) -> bool {
        self@ == other@
    }
}

impl PartialOrd for DateDuration {
    fn partial_cmp(&self, other: &Self) -> (r: Option<Ordering>) {
        if self.days < other.days {
            Some(Ordering::Less)
        } else if self.days == other.days {
            Some(Ordering::Equal)
        } else {
            Some(Ordering::Greater)
        }
    }
}

impl PartialOrdSpecImpl for DateDuration {
    open spec fn obeys_partial_cmp_spec() -> bool {
        true
    }

    open spec fn partial_cmp_spec(&self, other: &Self) -> Option<Ordering> {
        if self@ < other@ {
            Some(Ordering::Less)
        } else if self@ == other@ {
            Some(Ordering::Equal)
        } else {
            Some(Ordering::Greater)
        }
    }
}

} // verus!
