//! Logical dates, weekdays, local times of day and their ranges.
use vstd::prelude::*;

use crate::primitives::time::TimeZone;
use crate::text::{decimal, owned, push_decimal, push_text, push_zero_padded, zero_padded};

verus! {

/// Gregorian leap-year rule.
pub open spec fn spec_is_leap_year(year: int) -> bool {
    (year % 4 == 0 && year % 100 != 0) || year % 400 == 0
}

/// Days in a month of a year; zero for a month outside `1..=12`.
pub open spec fn spec_days_in_month(year: int, month: int) -> int {
    if month == 1 || month == 3 || month == 5 || month == 7 || month == 8 || month == 10 || month
        == 12 {
        31
    } else if month == 4 || month == 6 || month == 9 || month == 11 {
        30
    } else if month == 2 && spec_is_leap_year(year) {
        29
    } else if month == 2 {
        28
    } else {
        0
    }
}

pub fn is_leap_year(year: i32) -> (r: bool)
    ensures
        r == spec_is_leap_year(year as int),
{
    (year % 4 == 0 && year % 100 != 0) || year % 400 == 0
}

pub fn days_in_month(year: i32, month: u8) -> (r: u8)
    ensures
        r == spec_days_in_month(year as int, month as int),
{
    match month {
        1 | 3 | 5 | 7 | 8 | 10 | 12 => 31,
        4 | 6 | 9 | 11 => 30,
        2 => if is_leap_year(year) {
            29
        } else {
            28
        },
        _ => 0,
    }
}

/// Division that truncates toward zero, as Rust's `/` on signed integers does.
pub open spec fn tdiv(x: int, d: int) -> int {
    if x >= 0 {
        x / d
    } else {
        -((-x) / d)
    }
}

/// Days from 1970-01-01 to the given civil date (negative before it), by
/// Howard Hinnant's `days_from_civil` algorithm.
pub open spec fn spec_days_from_civil(year: int, month: int, day: int) -> int {
    let y = year - if month <= 2 {
        1int
    } else {
        0int
    };
    let era = tdiv(
        if y >= 0 {
            y
        } else {
            y - 399
        },
        400,
    );
    let year_of_era = y - era * 400;
    let month_prime = month + if month > 2 {
        -3int
    } else {
        9int
    };
    let day_of_year = (153 * month_prime + 2) / 5 + day - 1;
    let day_of_era = year_of_era * 365 + year_of_era / 4 - year_of_era / 100 + day_of_year;
    era * 146_097 + day_of_era - 719_468
}

/// Monday-based index (Monday is 0) of the weekday of a day count since
/// 1970-01-01, which was a Thursday.
pub open spec fn spec_weekday_index(days: int) -> int {
    (days + 3) % 7
}

/// The abstract value of a logical date.
pub struct LogicalDateView {
    pub year: int,
    pub month: int,
    pub day: int,
}

/// Dates compare by year, then month, then day.
pub open spec fn date_le(a: LogicalDateView, b: LogicalDateView) -> bool {
    a.year < b.year || (a.year == b.year && (a.month < b.month || (a.month == b.month && a.day
        <= b.day)))
}

/// A calendar date with no time zone.
#[derive(Debug, Copy, Clone, Eq, PartialEq, Ord, PartialOrd, Hash)]
pub struct LogicalDate {
    year: i32,
    month: u8,
    day: u8,
}

impl LogicalDate {
    #[verifier::type_invariant]
    spec fn well_formed(self) -> bool {
        1 <= self.month <= 12 && 1 <= self.day <= spec_days_in_month(
            self.year as int,
            self.month as int,
        )
    }
}

impl View for LogicalDate {
    type V = LogicalDateView;

    closed spec fn view(&self) -> LogicalDateView {
        LogicalDateView { year: self.year as int, month: self.month as int, day: self.day as int }
    }
}

impl DeepView for LogicalDate {
    type V = LogicalDateView;

    open spec fn deep_view(&self) -> LogicalDateView {
        self@
    }
}

/// A valid date: month in `1..=12` and day within the month.
pub open spec fn valid_date(year: int, month: int, day: int) -> bool {
    1 <= month <= 12 && 1 <= day <= spec_days_in_month(year, month)
}

impl LogicalDate {
    pub fn new(year: i32, month: u8, day: u8) -> (r: Result<Self, CalendarError>)
        ensures
            r is Ok <==> valid_date(year as int, month as int, day as int),
            r matches Ok(d) ==> d@ == (LogicalDateView {
                year: year as int,
                month: month as int,
                day: day as int,
            }),
            r matches Err(e) ==> (if !(1 <= month <= 12) {
                e == CalendarError::InvalidMonth(month)
            } else {
                e == (CalendarError::InvalidDay { year, month, day })
            }),
    {
        if !(1 <= month && month <= 12) {
            return Err(CalendarError::InvalidMonth(month));
        }
        let max_day = days_in_month(year, month);
        if day == 0 || day > max_day {
            return Err(CalendarError::InvalidDay { year, month, day });
        }
        Ok(LogicalDate { year, month, day })
    }

    pub fn year(self) -> (r: i32)
        ensures
            r == self@.year,
    {
        self.year
    }

    pub fn month(self) -> (r: u8)
        ensures
            r == self@.month,
    {
        self.month
    }

    pub fn day(self) -> (r: u8)
        ensures
            r == self@.day,
    {
        self.day
    }

    pub fn day_of_week(self) -> (r: DayOfWeek)
        ensures
            r.spec_index() == spec_weekday_index(
                spec_days_from_civil(self@.year, self@.month, self@.day),
            ),
    {
        proof {
            use_type_invariant(&self);
        }
        let days = days_from_civil(self.year, self.month, self.day);
        DayOfWeek::from_days_since_unix_epoch(days)
    }

    /// `self` is on or before `other`.
    pub(crate) fn is_on_or_before(self, other: Self) -> (r: bool)
        ensures
            r == date_le(self@, other@),
    {
        self.year < other.year || (self.year == other.year && (self.month < other.month || (
        self.month == other.month && self.day <= other.day)))
    }
}

fn days_from_civil(year: i32, month: u8, day: u8) -> (r: i64)
    requires
        1 <= month <= 12,
        1 <= day <= 31,
    ensures
        r == spec_days_from_civil(year as int, month as int, day as int),
{
    let y: i64 = year as i64 - if month <= 2 {
        1
    } else {
        0
    };
    let numerator: i64 = if y >= 0 {
        y
    } else {
        y - 399
    };
    let era: i64 = if numerator >= 0 {
        numerator / 400
    } else {
        -((-numerator) / 400)
    };
    assert(era == tdiv(numerator as int, 400));
    let year_of_era: i64 = y - era * 400;
    assert(0 <= year_of_era < 400) by (nonlinear_arith)
        requires
            year_of_era == y - era * 400,
            era == tdiv(if y >= 0 { y as int } else { y - 399 }, 400),
    ;
    let m: i64 = month as i64;
    let d: i64 = day as i64;
    let month_prime: i64 = m + if m > 2 {
        -3
    } else {
        9
    };
    let day_of_year: i64 = (153 * month_prime + 2) / 5 + d - 1;
    let day_of_era: i64 = year_of_era * 365 + year_of_era / 4 - year_of_era / 100 + day_of_year;
    era * 146_097 + day_of_era - 719_468
}

/// A day of the week.
#[derive(Debug, Copy, Clone, Eq, PartialEq, Ord, PartialOrd, Hash)]
pub enum DayOfWeek {
    Monday,
    Tuesday,
    Wednesday,
    Thursday,
    Friday,
    Saturday,
    Sunday,
}

impl DayOfWeek {
    /// Monday is 0, Sunday is 6.
    pub open spec fn spec_index(self) -> int {
        match self {
            DayOfWeek::Monday => 0,
            DayOfWeek::Tuesday => 1,
            DayOfWeek::Wednesday => 2,
            DayOfWeek::Thursday => 3,
            DayOfWeek::Friday => 4,
            DayOfWeek::Saturday => 5,
            DayOfWeek::Sunday => 6,
        }
    }

    pub fn monday_index(self) -> (r: u8)
        ensures
            r == self.spec_index(),
    {
        match self {
            DayOfWeek::Monday => 0,
            DayOfWeek::Tuesday => 1,
            DayOfWeek::Wednesday => 2,
            DayOfWeek::Thursday => 3,
            DayOfWeek::Friday => 4,
            DayOfWeek::Saturday => 5,
            DayOfWeek::Sunday => 6,
        }
    }

    pub fn from_monday_index(index: u8) -> (r: Result<Self, CalendarError>)
        ensures
            r is Ok <==> index <= 6,
            r matches Ok(d) ==> d.spec_index() == index,
            r matches Err(e) ==> e == CalendarError::InvalidDayOfWeek(index),
    {
        match index {
            0 => Ok(DayOfWeek::Monday),
            1 => Ok(DayOfWeek::Tuesday),
            2 => Ok(DayOfWeek::Wednesday),
            3 => Ok(DayOfWeek::Thursday),
            4 => Ok(DayOfWeek::Friday),
            5 => Ok(DayOfWeek::Saturday),
            6 => Ok(DayOfWeek::Sunday),
            _ => Err(CalendarError::InvalidDayOfWeek(index)),
        }
    }

    fn from_days_since_unix_epoch(days: i64) -> (r: Self)
        ensures
            r.spec_index() == spec_weekday_index(days as int),
    {
        let shifted = days as i128 + 3;
        let index = match shifted.checked_rem_euclid(7) {
            Some(v) => v,
            None => 0,
        };
        assert(index == (days + 3) % 7);
        match Self::from_monday_index(index as u8) {
            Ok(day) => day,
            Err(_) => DayOfWeek::Monday,
        }
    }
}

/// A non-empty set of weekdays.
#[derive(Debug, Eq, PartialEq)]
pub struct DaysOfWeek {
    days: [bool; 7],
}

impl Clone for DaysOfWeek {
    fn clone(&self) -> (r: Self)
        ensures
            r@ == self@,
    {
        proof {
            use_type_invariant(self);
        }
        let r = DaysOfWeek { days: self.days };
        assert(r@ =~= self@);
        r
    }
}

impl DaysOfWeek {
    #[verifier::type_invariant]
    spec fn well_formed(self) -> bool {
        self.days[0] || self.days[1] || self.days[2] || self.days[3] || self.days[4]
            || self.days[5] || self.days[6]
    }
}

impl View for DaysOfWeek {
    type V = Set<DayOfWeek>;

    closed spec fn view(&self) -> Set<DayOfWeek> {
        Set::new(|d: DayOfWeek| self.days[d.spec_index()])
    }
}

impl DeepView for DaysOfWeek {
    type V = Set<DayOfWeek>;

    open spec fn deep_view(&self) -> Set<DayOfWeek> {
        self@
    }
}

impl DaysOfWeek {
    /// The set of the given days; an empty list is an error.
    pub fn new(days: Vec<DayOfWeek>) -> (r: Result<Self, CalendarError>)
        ensures
            r is Ok <==> days@.len() > 0,
            r matches Ok(set) ==> set@ == days@.to_set(),
            r matches Err(e) ==> e == CalendarError::EmptyDaysOfWeek,
    {
        let mut mask = [false, false, false, false, false, false, false];
        let mut i: usize = 0;
        while i < days.len()
            invariant
                i <= days.len(),
                forall|d: DayOfWeek| #[trigger] mask[d.spec_index()] <==> exists|k: int|
                    0 <= k < i && #[trigger] days@[k] == d,
            decreases days.len() - i,
        {
            let idx = days[i].monday_index() as usize;
            mask[idx] = true;
            proof {
                assert forall|d: DayOfWeek| #[trigger] mask[d.spec_index()] <==> exists|k: int|
                    0 <= k < i + 1 && #[trigger] days@[k] == d by {
                    if d == days@[i as int] {
                        assert(days@[i as int] == d);
                    }
                }
            }
            i += 1;
        }
        if days.len() == 0 {
            return Err(CalendarError::EmptyDaysOfWeek);
        }
        proof {
            let d0 = days@[0];
            assert(mask[d0.spec_index()]);
            match d0 {
                DayOfWeek::Monday => assert(mask[0]),
                DayOfWeek::Tuesday => assert(mask[1]),
                DayOfWeek::Wednesday => assert(mask[2]),
                DayOfWeek::Thursday => assert(mask[3]),
                DayOfWeek::Friday => assert(mask[4]),
                DayOfWeek::Saturday => assert(mask[5]),
                DayOfWeek::Sunday => assert(mask[6]),
            }
        }
        let r = DaysOfWeek { days: mask };
        proof {
            assert forall|d: DayOfWeek| r@.contains(d) <==> days@.to_set().contains(d) by {
                if days@.contains(d) {
                    let k = choose|k: int| 0 <= k < days@.len() && days@[k] == d;
                    assert(days@[k] == d);
                }
            }
            assert(r@ =~= days@.to_set());
        }
        Ok(r)
    }

    /// All seven days.
    pub fn all() -> (r: Self)
        ensures
            r@ == Set::<DayOfWeek>::full(),
    {
        let r = DaysOfWeek { days: [true, true, true, true, true, true, true] };
        assert(r@ =~= Set::<DayOfWeek>::full());
        r
    }

    /// Monday through Friday.
    pub fn weekdays() -> (r: Self)
        ensures
            r@ == set![
                DayOfWeek::Monday,
                DayOfWeek::Tuesday,
                DayOfWeek::Wednesday,
                DayOfWeek::Thursday,
                DayOfWeek::Friday,
            ],
    {
        let r = DaysOfWeek { days: [true, true, true, true, true, false, false] };
        assert(r.days[0]);
        assert(r@ =~= set![
            DayOfWeek::Monday,
            DayOfWeek::Tuesday,
            DayOfWeek::Wednesday,
            DayOfWeek::Thursday,
            DayOfWeek::Friday,
        ]);
        r
    }

    /// Saturday and Sunday.
    pub fn weekends() -> (r: Self)
        ensures
            r@ == set![DayOfWeek::Saturday, DayOfWeek::Sunday],
    {
        let r = DaysOfWeek { days: [false, false, false, false, false, true, true] };
        assert(r.days[5]);
        assert(r@ =~= set![DayOfWeek::Saturday, DayOfWeek::Sunday]);
        r
    }

    pub fn contains(&self, day: DayOfWeek) -> (r: bool)
        ensures
            r == self@.contains(day),
    {
        self.days[day.monday_index() as usize]
    }

    /// The days of the set, Monday first.
    pub fn days(&self) -> (r: Vec<DayOfWeek>)
        ensures
            r@.to_set() == self@,
            forall|i: int, j: int| 0 <= i < j < r@.len() ==> r@[i].spec_index() < r@[j].spec_index(),
    {
        let mut r: Vec<DayOfWeek> = Vec::new();
        let mut i: u8 = 0;
        while i < 7
            invariant
                i <= 7,
                forall|k: int| 0 <= k < r@.len() ==> #[trigger] r@[k].spec_index() < i,
                forall|a: int, b: int| 0 <= a < b < r@.len() ==> r@[a].spec_index()
                    < r@[b].spec_index(),
                forall|d: DayOfWeek| #[trigger] r@.contains(d) <==> (d.spec_index() < i
                    && self@.contains(d)),
            decreases 7 - i,
        {
            let day = match DayOfWeek::from_monday_index(i) {
                Ok(d) => d,
                Err(_) => DayOfWeek::Monday,
            };
            let ghost old_r = r@;
            if self.contains(day) {
                r.push(day);
                proof {
                    assert forall|d: DayOfWeek| #[trigger] r@.contains(d) <==> (d.spec_index() < i + 1
                        && self@.contains(d)) by {
                        if r@.contains(d) && d != day {
                            let k = choose|k: int| 0 <= k < r@.len() && r@[k] == d;
                            assert(old_r[k] == d);
                            assert(old_r.contains(d));
                        }
                        if d.spec_index() < i + 1 && self@.contains(d) {
                            if d.spec_index() == i {
                                assert(d == day);
                                assert(r@[r@.len() - 1] == d);
                            } else {
                                assert(old_r.contains(d));
                                let k = choose|k: int| 0 <= k < old_r.len() && old_r[k] == d;
                                assert(r@[k] == d);
                            }
                        }
                    }
                }
            } else {
                proof {
                    assert forall|d: DayOfWeek| #[trigger] r@.contains(d) <==> (d.spec_index() < i + 1
                        && self@.contains(d)) by {
                        if d.spec_index() == i {
                            assert(d == day);
                        }
                    }
                }
            }
            i += 1;
        }
        assert forall|d: DayOfWeek| r@.to_set().contains(d) <==> self@.contains(d) by {
            assert(d.spec_index() < 7);
        }
        assert(r@.to_set() =~= self@);
        r
    }
}

/// Seconds since local midnight, `0..=86_399`.
#[derive(Debug, Copy, Clone, Eq, PartialEq, Ord, PartialOrd, Hash)]
pub struct LocalTimeOfDay {
    second_of_day: u32,
}

impl LocalTimeOfDay {
    #[verifier::type_invariant]
    spec fn well_formed(self) -> bool {
        self.second_of_day <= 86_399
    }
}

impl View for LocalTimeOfDay {
    type V = int;

    closed spec fn view(&self) -> int {
        self.second_of_day as int
    }
}

impl DeepView for LocalTimeOfDay {
    type V = int;

    open spec fn deep_view(&self) -> int {
        self@
    }
}

pub const MAX_SECOND_OF_DAY: u32 = 86_399;

pub const SECONDS_PER_DAY: u32 = 86_400;

impl LocalTimeOfDay {
    pub fn from_hms(hour: u8, minute: u8, second: u8) -> (r: Result<Self, CalendarError>)
        ensures
            r is Ok <==> hour <= 23 && minute <= 59 && second <= 59,
            r matches Ok(t) ==> t@ == hour * 3_600 + minute * 60 + second,
            r matches Err(e) ==> (if hour > 23 {
                e == CalendarError::InvalidHour(hour)
            } else if minute > 59 {
                e == CalendarError::InvalidMinute(minute)
            } else {
                e == CalendarError::InvalidSecond(second)
            }),
    {
        if hour > 23 {
            return Err(CalendarError::InvalidHour(hour));
        }
        if minute > 59 {
            return Err(CalendarError::InvalidMinute(minute));
        }
        if second > 59 {
            return Err(CalendarError::InvalidSecond(second));
        }
        Ok(
            LocalTimeOfDay {
                second_of_day: hour as u32 * 3_600 + minute as u32 * 60 + second as u32,
            },
        )
    }

    pub fn from_seconds_since_midnight(second_of_day: u32) -> (r: Result<Self, CalendarError>)
        ensures
            r is Ok <==> second_of_day <= MAX_SECOND_OF_DAY,
            r matches Ok(t) ==> t@ == second_of_day,
            r matches Err(e) ==> e == CalendarError::InvalidSecondOfDay(second_of_day),
    {
        if second_of_day > MAX_SECOND_OF_DAY {
            return Err(CalendarError::InvalidSecondOfDay(second_of_day));
        }
        Ok(LocalTimeOfDay { second_of_day })
    }

    pub fn second_of_day(self) -> (r: u32)
        ensures
            r == self@,
            r <= MAX_SECOND_OF_DAY,
    {
        proof {
            use_type_invariant(&self);
        }
        self.second_of_day
    }

    pub fn hour(self) -> (r: u8)
        ensures
            r == self@ / 3_600,
    {
        proof {
            use_type_invariant(&self);
        }
        (self.second_of_day / 3_600) as u8
    }

    pub fn minute(self) -> (r: u8)
        ensures
            r == self@ % 3_600 / 60,
    {
        (self.second_of_day % 3_600 / 60) as u8
    }

    pub fn second(self) -> (r: u8)
        ensures
            r == self@ % 60,
    {
        (self.second_of_day % 60) as u8
    }
}

/// A half-open local time range `[start, end)` within one day.
#[derive(Debug, Copy, Clone, Eq, PartialEq)]
pub struct LocalTimeRange {
    start_second: u32,
    end_second: u32,
}

pub struct LocalTimeRangeView {
    pub start_second: int,
    pub end_second: int,
}

impl LocalTimeRange {
    #[verifier::type_invariant]
    spec fn well_formed(self) -> bool {
        self.start_second < self.end_second <= SECONDS_PER_DAY
    }
}

impl View for LocalTimeRange {
    type V = LocalTimeRangeView;

    closed spec fn view(&self) -> LocalTimeRangeView {
        LocalTimeRangeView { start_second: self.start_second as int, end_second: self.end_second as int }
    }
}

impl DeepView for LocalTimeRange {
    type V = LocalTimeRangeView;

    open spec fn deep_view(&self) -> LocalTimeRangeView {
        self@
    }
}

impl LocalTimeRangeView {
    pub open spec fn contains(self, second_of_day: int) -> bool {
        self.start_second <= second_of_day < self.end_second
    }
}

impl LocalTimeRange {
    pub fn new(start: LocalTimeOfDay, end: LocalTimeOfDay) -> (r: Result<Self, CalendarError>)
        ensures
            r is Ok <==> start@ < end@,
            r matches Ok(range) ==> range@ == (LocalTimeRangeView {
                start_second: start@,
                end_second: end@,
            }),
            r matches Err(e) ==> e == (CalendarError::InvalidTimeRange {
                start_second: start@ as u32,
                end_second: end@ as u32,
            }),
    {
        Self::from_seconds(start.second_of_day(), end.second_of_day())
    }

    pub fn from_seconds(start_second: u32, end_second: u32) -> (r: Result<Self, CalendarError>)
        ensures
            r is Ok <==> start_second < end_second <= SECONDS_PER_DAY,
            r matches Ok(range) ==> range@ == (LocalTimeRangeView {
                start_second: start_second as int,
                end_second: end_second as int,
            }),
            r matches Err(e) ==> (if start_second >= SECONDS_PER_DAY {
                e == CalendarError::InvalidRangeStartSecond(start_second)
            } else if end_second > SECONDS_PER_DAY {
                e == CalendarError::InvalidRangeEndSecond(end_second)
            } else {
                e == (CalendarError::InvalidTimeRange { start_second, end_second })
            }),
    {
        if start_second >= SECONDS_PER_DAY {
            return Err(CalendarError::InvalidRangeStartSecond(start_second));
        }
        if end_second > SECONDS_PER_DAY {
            return Err(CalendarError::InvalidRangeEndSecond(end_second));
        }
        if start_second >= end_second {
            return Err(CalendarError::InvalidTimeRange { start_second, end_second });
        }
        Ok(LocalTimeRange { start_second, end_second })
    }

    pub fn all_day() -> (r: Self)
        ensures
            r@ == (LocalTimeRangeView { start_second: 0, end_second: SECONDS_PER_DAY as int }),
    {
        LocalTimeRange { start_second: 0, end_second: SECONDS_PER_DAY }
    }

    pub fn contains(self, time: LocalTimeOfDay) -> (r: bool)
        ensures
            r == self@.contains(time@),
    {
        self.start_second <= time.second_of_day() && time.second_of_day() < self.end_second
    }

    pub fn start_second(self) -> (r: u32)
        ensures
            r == self@.start_second,
    {
        self.start_second
    }

    pub fn end_second(self) -> (r: u32)
        ensures
            r == self@.end_second,
    {
        self.end_second
    }
}

/// An inclusive range of dates `[start, end]`.
#[derive(Debug, Copy, Clone, Eq, PartialEq)]
pub struct LogicalDateRange {
    start: LogicalDate,
    end: LogicalDate,
}

pub struct LogicalDateRangeView {
    pub start: LogicalDateView,
    pub end: LogicalDateView,
}

impl LogicalDateRangeView {
    pub open spec fn contains(self, date: LogicalDateView) -> bool {
        date_le(self.start, date) && date_le(date, self.end)
    }
}

impl View for LogicalDateRange {
    type V = LogicalDateRangeView;

    closed spec fn view(&self) -> LogicalDateRangeView {
        LogicalDateRangeView { start: self.start@, end: self.end@ }
    }
}

impl DeepView for LogicalDateRange {
    type V = LogicalDateRangeView;

    open spec fn deep_view(&self) -> LogicalDateRangeView {
        self@
    }
}

impl LogicalDateRange {
    pub fn new(start: LogicalDate, end: LogicalDate) -> (r: Result<Self, CalendarError>)
        ensures
            r is Ok <==> date_le(start@, end@),
            r matches Ok(range) ==> range@ == (LogicalDateRangeView { start: start@, end: end@ }),
            r matches Err(e) ==> e == (CalendarError::InvalidDateRange { start, end }),
    {
        if !start.is_on_or_before(end) {
            return Err(CalendarError::InvalidDateRange { start, end });
        }
        Ok(LogicalDateRange { start, end })
    }

    pub fn contains(self, date: LogicalDate) -> (r: bool)
        ensures
            r == self@.contains(date@),
    {
        self.start.is_on_or_before(date) && date.is_on_or_before(self.end)
    }

    pub fn start(self) -> (r: LogicalDate)
        ensures
            r@ == self@.start,
    {
        self.start
    }

    pub fn end(self) -> (r: LogicalDate)
        ensures
            r@ == self@.end,
    {
        self.end
    }
}

/// The abstract value of a calendar moment.
pub struct CalendarMomentView {
    pub date: LogicalDateView,
    pub day_of_week: DayOfWeek,
    pub time_of_day: int,
    pub time_zone: Seq<char>,
}

/// A local date and time of day in a named time zone, with the date's weekday.
#[derive(Debug, Eq, PartialEq)]
pub struct CalendarMoment {
    date: LogicalDate,
    day_of_week: DayOfWeek,
    time_of_day: LocalTimeOfDay,
    time_zone: TimeZone,
}

impl View for CalendarMoment {
    type V = CalendarMomentView;

    closed spec fn view(&self) -> CalendarMomentView {
        CalendarMomentView {
            date: self.date@,
            day_of_week: self.day_of_week,
            time_of_day: self.time_of_day@,
            time_zone: self.time_zone@,
        }
    }
}

impl DeepView for CalendarMoment {
    type V = CalendarMomentView;

    open spec fn deep_view(&self) -> CalendarMomentView {
        self@
    }
}

impl Clone for CalendarMoment {
    fn clone(&self) -> (r: Self)
        ensures
            r@ == self@,
    {
        CalendarMoment {
            date: self.date,
            day_of_week: self.day_of_week,
            time_of_day: self.time_of_day,
            time_zone: self.time_zone.clone(),
        }
    }
}

impl CalendarMoment {
    pub fn new(date: LogicalDate, time_of_day: LocalTimeOfDay, time_zone: TimeZone) -> (r: Self)
        ensures
            r@.date == date@,
            r@.day_of_week.spec_index() == spec_weekday_index(
                spec_days_from_civil(date@.year, date@.month, date@.day),
            ),
            r@.time_of_day == time_of_day@,
            r@.time_zone == time_zone@,
    {
        CalendarMoment { date, day_of_week: date.day_of_week(), time_of_day, time_zone }
    }

    pub fn date(&self) -> (r: LogicalDate)
        ensures
            r@ == self@.date,
    {
        self.date
    }

    pub fn day_of_week(&self) -> (r: DayOfWeek)
        ensures
            r == self@.day_of_week,
    {
        self.day_of_week
    }

    pub fn time_of_day(&self) -> (r: LocalTimeOfDay)
        ensures
            r@ == self@.time_of_day,
    {
        self.time_of_day
    }

    pub fn time_zone(&self) -> (r: &TimeZone)
        ensures
            r@ == self@.time_zone,
    {
        &self.time_zone
    }
}

#[derive(Debug, Copy, Clone, Eq, PartialEq)]
pub enum CalendarError {
    InvalidMonth(u8),
    InvalidDay { year: i32, month: u8, day: u8 },
    InvalidDayOfWeek(u8),
    EmptyDaysOfWeek,
    InvalidHour(u8),
    InvalidMinute(u8),
    InvalidSecond(u8),
    InvalidSecondOfDay(u32),
    InvalidRangeStartSecond(u32),
    InvalidRangeEndSecond(u32),
    InvalidTimeRange { start_second: u32, end_second: u32 },
    InvalidDateRange { start: LogicalDate, end: LogicalDate },
}

/// The calendar day after a date: the next day of the month, else the first
/// of the next month, else the first of January of the next year.
pub open spec fn next_date(d: LogicalDateView) -> LogicalDateView {
    if d.day < spec_days_in_month(d.year, d.month) {
        LogicalDateView { day: d.day + 1, ..d }
    } else if d.month < 12 {
        LogicalDateView { year: d.year, month: d.month + 1, day: 1 }
    } else {
        LogicalDateView { year: d.year + 1, month: 1, day: 1 }
    }
}

/// Days in the proleptic Gregorian years before March of year `y + 1`,
/// counted from a fixed origin.
spec fn year_days(y: int) -> int {
    365 * y + y / 4 - y / 100 + y / 400
}

#[verifier::spinoff_prover]
proof fn lemma_era_days(y: int)
    ensures
        ({
            let era = tdiv(if y >= 0 { y } else { y - 399 }, 400);
            let year_of_era = y - era * 400;
            era * 146_097 + year_of_era * 365 + year_of_era / 4 - year_of_era / 100 == year_days(y)
        }),
{
    let q = y / 400;
    let r = y % 400;
    assert(y == 400 * q + r && 0 <= r < 400);
    let era = tdiv(if y >= 0 { y } else { y - 399 }, 400);
    if y < 0 {
        assert(399 - y == 400 * (-q) + (399 - r));
        assert((399 - y) / 400 == -q);
    }
    assert(era == q);
    assert(y / 4 == 100 * q + r / 4);
    assert(y / 100 == 4 * q + r / 100);
}

proof fn lemma_step_by_4(y: int)
    ensures
        y / 4 - (y - 1) / 4 == if y % 4 == 0 { 1int } else { 0int },
{
}

proof fn lemma_step_by_100(y: int)
    ensures
        y / 100 - (y - 1) / 100 == if y % 100 == 0 { 1int } else { 0int },
{
}

proof fn lemma_step_by_400(y: int)
    ensures
        y / 400 - (y - 1) / 400 == if y % 400 == 0 { 1int } else { 0int },
        y % 400 == 0 ==> y % 100 == 0 && y % 4 == 0,
{
}

proof fn lemma_divides_by_100(y: int)
    ensures
        y % 100 == 0 ==> y % 4 == 0,
{
}

#[verifier::spinoff_prover]
proof fn lemma_year_days_step(y: int)
    ensures
        year_days(y) - year_days(y - 1) == 365 + if spec_is_leap_year(y) { 1int } else { 0int },
{
    lemma_step_by_4(y);
    lemma_step_by_100(y);
    lemma_step_by_400(y);
    lemma_divides_by_100(y);
}

/// The day count as whole years before the date's March-based year plus
/// the day of that year.
proof fn lemma_days_from_civil_form(year: int, month: int, day: int)
    ensures
        spec_days_from_civil(year, month, day) == year_days(year - if month <= 2 { 1int } else { 0int })
            + (153 * (month + if month > 2 { -3int } else { 9int }) + 2) / 5 + day - 1 - 719_468,
{
    lemma_era_days(year - if month <= 2 { 1int } else { 0int });
}

proof fn lemma_same_month_step(year: int, month: int, day: int)
    ensures
        spec_days_from_civil(year, month, day + 1) == spec_days_from_civil(year, month, day) + 1,
{
    lemma_days_from_civil_form(year, month, day);
    lemma_days_from_civil_form(year, month, day + 1);
}

proof fn lemma_month_end_step(year: int, month: int)
    requires
        1 <= month <= 11,
        month != 2,
    ensures
        spec_days_from_civil(year, month + 1, 1) == spec_days_from_civil(year, month, spec_days_in_month(year, month)) + 1,
{
    lemma_days_from_civil_form(year, month, spec_days_in_month(year, month));
    lemma_days_from_civil_form(year, month + 1, 1);
    if month == 1 {
        assert((153 * 10 + 2) / 5 == 306 && (153 * 11 + 2) / 5 == 337);
    } else if month == 3 {
        assert((153 * 0 + 2) / 5 == 0 && (153 * 1 + 2) / 5 == 31);
    } else if month == 4 {
        assert((153 * 1 + 2) / 5 == 31 && (153 * 2 + 2) / 5 == 61);
    } else if month == 5 {
        assert((153 * 2 + 2) / 5 == 61 && (153 * 3 + 2) / 5 == 92);
    } else if month == 6 {
        assert((153 * 3 + 2) / 5 == 92 && (153 * 4 + 2) / 5 == 122);
    } else if month == 7 {
        assert((153 * 4 + 2) / 5 == 122 && (153 * 5 + 2) / 5 == 153);
    } else if month == 8 {
        assert((153 * 5 + 2) / 5 == 153 && (153 * 6 + 2) / 5 == 184);
    } else if month == 9 {
        assert((153 * 6 + 2) / 5 == 184 && (153 * 7 + 2) / 5 == 214);
    } else if month == 10 {
        assert((153 * 7 + 2) / 5 == 214 && (153 * 8 + 2) / 5 == 245);
    } else {
        assert((153 * 8 + 2) / 5 == 245 && (153 * 9 + 2) / 5 == 275);
    }
}

proof fn lemma_february_end_step(year: int)
    ensures
        spec_days_from_civil(year, 3, 1) == spec_days_from_civil(year, 2, spec_days_in_month(year, 2)) + 1,
{
    lemma_days_from_civil_form(year, 2, spec_days_in_month(year, 2));
    lemma_days_from_civil_form(year, 3, 1);
    lemma_year_days_step(year);
    assert((153 * 11 + 2) / 5 == 337 && (153 * 0 + 2) / 5 == 0);
}

proof fn lemma_year_end_step(year: int)
    ensures
        spec_days_from_civil(year + 1, 1, 1) == spec_days_from_civil(year, 12, 31) + 1,
{
    lemma_days_from_civil_form(year, 12, 31);
    lemma_days_from_civil_form(year + 1, 1, 1);
    assert((153 * 9 + 2) / 5 == 275 && (153 * 10 + 2) / 5 == 306);
}

proof fn lemma_epoch_is_day_zero()
    ensures
        spec_days_from_civil(1970, 1, 1) == 0,
{
    lemma_days_from_civil_form(1970, 1, 1);
    assert(year_days(1969) == 365 * 1969 + 492 - 19 + 4);
    assert((153 * 10 + 2) / 5 == 306);
}

#[verifier::spinoff_prover]
proof fn lemma_next_day_count(d: LogicalDateView)
    requires
        valid_date(d.year, d.month, d.day),
    ensures
        valid_date(next_date(d).year, next_date(d).month, next_date(d).day),
        spec_days_from_civil(next_date(d).year, next_date(d).month, next_date(d).day)
            == spec_days_from_civil(d.year, d.month, d.day) + 1,
{
    if d.day < spec_days_in_month(d.year, d.month) {
        lemma_same_month_step(d.year, d.month, d.day);
    } else if d.month == 2 {
        lemma_february_end_step(d.year);
    } else if d.month == 12 {
        lemma_year_end_step(d.year);
    } else {
        lemma_month_end_step(d.year, d.month);
    }
}

/// Consecutive calendar days have consecutive day counts, across month and
/// year ends and leap days alike, and 1970-01-01 is day zero. So the weekday
/// advances by one each day, and 1970-01-01 is a Thursday (index 3, counting
/// from Monday as 0): together these fix the weekday of every date.
#[verifier::spinoff_prover]
pub proof fn lemma_next_day_is_next_weekday(d: LogicalDateView)
    requires
        valid_date(d.year, d.month, d.day),
    ensures
        valid_date(next_date(d).year, next_date(d).month, next_date(d).day),
        spec_days_from_civil(next_date(d).year, next_date(d).month, next_date(d).day)
            == spec_days_from_civil(d.year, d.month, d.day) + 1,
        spec_weekday_index(spec_days_from_civil(next_date(d).year, next_date(d).month, next_date(d).day))
            == (spec_weekday_index(spec_days_from_civil(d.year, d.month, d.day)) + 1) % 7,
        spec_days_from_civil(1970, 1, 1) == 0,
        spec_weekday_index(spec_days_from_civil(1970, 1, 1)) == 3,
{
    lemma_epoch_is_day_zero();
    lemma_next_day_count(d);
    let n = next_date(d);
    let a = spec_days_from_civil(d.year, d.month, d.day);
    let b = spec_days_from_civil(n.year, n.month, n.day);
    assert((b + 3) % 7 == ((a + 3) % 7 + 1) % 7);
}

/// Date order is a total order: every two dates compare one way or the other,
/// and a date range contains both of its ends.
pub proof fn lemma_date_order(a: LogicalDateView, b: LogicalDateView, c: LogicalDateView)
    ensures
        date_le(a, a),
        date_le(a, b) || date_le(b, a),
        date_le(a, b) && date_le(b, a) ==> a == b,
        date_le(a, b) && date_le(b, c) ==> date_le(a, c),
{
}

/// A date as `YYYY-MM-DD`, each part zero-padded.
pub open spec fn date_text(year: int, month: int, day: int) -> Seq<char> {
    zero_padded(year, 4) + "-"@ + zero_padded(month, 2) + "-"@ + zero_padded(day, 2)
}

/// The text a calendar error reads as.
pub open spec fn calendar_error_message(e: CalendarError) -> Seq<char> {
    match e {
        CalendarError::InvalidMonth(month) => "invalid calendar month `"@ + decimal(month as nat) + "`"@,
        CalendarError::InvalidDay { year, month, day } => "invalid logical date `"@ + date_text(
            year as int,
            month as int,
            day as int,
        ) + "`"@,
        CalendarError::InvalidDayOfWeek(index) => "invalid day-of-week index `"@ + decimal(index as nat) + "`"@,
        CalendarError::EmptyDaysOfWeek => "days-of-week set cannot be empty"@,
        CalendarError::InvalidHour(hour) => "invalid local hour `"@ + decimal(hour as nat) + "`"@,
        CalendarError::InvalidMinute(minute) => "invalid local minute `"@ + decimal(minute as nat) + "`"@,
        CalendarError::InvalidSecond(second) => "invalid local second `"@ + decimal(second as nat) + "`"@,
        CalendarError::InvalidSecondOfDay(second) => "invalid second-of-day `"@ + decimal(second as nat) + "`"@,
        CalendarError::InvalidRangeStartSecond(second) => "invalid range start second `"@ + decimal(second as nat)
            + "`"@,
        CalendarError::InvalidRangeEndSecond(second) => "invalid range end second `"@ + decimal(second as nat) + "`"@,
        CalendarError::InvalidTimeRange { start_second, end_second } => "invalid local time range `"@
            + decimal(start_second as nat) + "`..`"@ + decimal(end_second as nat) + "`"@,
        CalendarError::InvalidDateRange { start, end } => "invalid logical date range `"@ + date_text(
            start@.year,
            start@.month,
            start@.day,
        ) + "`..`"@ + date_text(end@.year, end@.month, end@.day) + "`"@,
    }
}

fn push_date(s: &mut String, date: LogicalDate)
    ensures
        final(s)@ == old(s)@ + date_text(date@.year, date@.month, date@.day),
{
    push_zero_padded(s, date.year() as i64, 4);
    push_text(s, "-");
    push_zero_padded(s, date.month() as i64, 2);
    push_text(s, "-");
    push_zero_padded(s, date.day() as i64, 2);
}

fn quoted_number(prefix: &str, n: u64) -> (r: String)
    ensures
        r@ == prefix@ + decimal(n as nat) + "`"@,
{
    let mut s = owned(prefix);
    push_decimal(&mut s, n);
    push_text(&mut s, "`");
    s
}

impl CalendarError {
    /// The error as text.
    pub fn message(&self) -> (r: String)
        ensures
            r@ == calendar_error_message(*self),
    {
        match self {
            CalendarError::InvalidMonth(month) => quoted_number("invalid calendar month `", *month as u64),
            CalendarError::InvalidDay { year, month, day } => {
                let mut s = owned("invalid logical date `");
                push_zero_padded(&mut s, *year as i64, 4);
                push_text(&mut s, "-");
                push_zero_padded(&mut s, *month as i64, 2);
                push_text(&mut s, "-");
                push_zero_padded(&mut s, *day as i64, 2);
                push_text(&mut s, "`");
                s
            },
            CalendarError::InvalidDayOfWeek(index) => quoted_number("invalid day-of-week index `", *index as u64),
            CalendarError::EmptyDaysOfWeek => owned("days-of-week set cannot be empty"),
            CalendarError::InvalidHour(hour) => quoted_number("invalid local hour `", *hour as u64),
            CalendarError::InvalidMinute(minute) => quoted_number("invalid local minute `", *minute as u64),
            CalendarError::InvalidSecond(second) => quoted_number("invalid local second `", *second as u64),
            CalendarError::InvalidSecondOfDay(second) => quoted_number("invalid second-of-day `", *second as u64),
            CalendarError::InvalidRangeStartSecond(second) => quoted_number(
                "invalid range start second `",
                *second as u64,
            ),
            CalendarError::InvalidRangeEndSecond(second) => quoted_number("invalid range end second `", *second as u64),
            CalendarError::InvalidTimeRange { start_second, end_second } => {
                let mut s = owned("invalid local time range `");
                push_decimal(&mut s, *start_second as u64);
                push_text(&mut s, "`..`");
                push_decimal(&mut s, *end_second as u64);
                push_text(&mut s, "`");
                s
            },
            CalendarError::InvalidDateRange { start, end } => {
                let mut s = owned("invalid logical date range `");
                push_date(&mut s, *start);
                push_text(&mut s, "`..`");
                push_date(&mut s, *end);
                push_text(&mut s, "`");
                s
            },
        }
    }
}

} // verus!
