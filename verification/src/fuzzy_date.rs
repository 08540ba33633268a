//! Dates of partial precision: "2023", "2023-10" and "2023-10-05" each
//! denote a range of calendar days, from the earliest day they could mean
//! to the latest.
//!
//! A [`FuzzyDate`] holds that range together with how complete the
//! original text was.  Comparisons treat the range as a whole: two fuzzy
//! dates are equal when their ranges coincide or overlap at an endpoint,
//! and one is less than another only when its whole range lies before.
//! Years from 0 to 9999 are supported, as the four-digit ISO text form
//! writes them.

use crate::strings::{
    find_char, pad2, pad4, push_char, spec_char_digit, spec_dec_string, spec_find_char,
    spec_is_digit, spec_pad2, spec_pad4, usize_dec_string,
};
use core::cmp::Ordering;
use vstd::prelude::*;

verus! {

/// A calendar day.
#[derive(Clone, Copy, Debug, PartialEq, Eq, Structural)]
pub struct Date {
    pub year: i32,
    pub month: u8,
    pub day: u8,
}

/// Whether `y` is a leap year of the proleptic Gregorian calendar.
pub open spec fn spec_is_leap_year(y: int) -> bool {
    (y % 4 == 0 && y % 100 != 0) || y % 400 == 0
}

/// The number of days of month `m` in year `y`.
pub open spec fn spec_days_in_month(y: int, m: int) -> int
    recommends
        1 <= m <= 12,
{
    if m == 2 {
        if spec_is_leap_year(y) {
            29
        } else {
            28
        }
    } else if m == 4 || m == 6 || m == 9 || m == 11 {
        30
    } else {
        31
    }
}

/// Whether `(y, m, d)` names a day of a supported year.
pub open spec fn spec_valid_ymd(y: int, m: int, d: int) -> bool {
    &&& 0 <= y <= 9999
    &&& 1 <= m <= 12
    &&& 1 <= d <= spec_days_in_month(y, m)
}

impl Date {
    /// Whether this value names a day of a supported year.
    pub open spec fn wf(self) -> bool {
        spec_valid_ymd(self.year as int, self.month as int, self.day as int)
    }

    /// Whether `self` is on or before `other` in calendar order.
    pub open spec fn spec_le(self, other: Date) -> bool {
        ||| self.year < other.year
        ||| (self.year == other.year && self.month < other.month)
        ||| (self.year == other.year && self.month == other.month && self.day <= other.day)
    }

    /// Whether `self` is on or before `other` in calendar order.
    pub fn le(&self, other: &Date) -> (r: bool)
        ensures
            r == self.spec_le(*other),
    {
        self.year < other.year || (self.year == other.year && self.month < other.month) || (
        self.year == other.year && self.month == other.month && self.day <= other.day)
    }

    /// The day named by `(y, m, d)`, when there is one in a supported
    /// year.
    pub fn from_ymd(y: i32, m: u8, d: u8) -> (r: Option<Date>)
        ensures
            r == if spec_valid_ymd(y as int, m as int, d as int) {
                Some(Date { year: y, month: m, day: d })
            } else {
                None::<Date>
            },
    {
        if 0 <= y && y <= 9999 && 1 <= m && m <= 12 && 1 <= d && d as u64 <= days_in_month(y, m)
            as u64 {
            Some(Date { year: y, month: m, day: d })
        } else {
            None
        }
    }
}

/// Whether `y` is a leap year.
pub fn is_leap_year(y: i32) -> (r: bool)
    requires
        y >= 0,
    ensures
        r == spec_is_leap_year(y as int),
{
    (y % 4 == 0 && y % 100 != 0) || y % 400 == 0
}

/// The number of days of month `m` in year `y`.
pub fn days_in_month(y: i32, m: u8) -> (r: u8)
    requires
        y >= 0,
        1 <= m <= 12,
    ensures
        r == spec_days_in_month(y as int, m as int),
{
    if m == 2 {
        if is_leap_year(y) {
            29
        } else {
            28
        }
    } else if m == 4 || m == 6 || m == 9 || m == 11 {
        30
    } else {
        31
    }
}

/// The last day of the month that `date` falls in.
pub fn last_day_in_month(date: &Date) -> (r: Date)
    requires
        date.wf(),
    ensures
        r.year == date.year,
        r.month == date.month,
        r.day == spec_days_in_month(date.year as int, date.month as int),
        r.wf(),
{
    Date { year: date.year, month: date.month, day: days_in_month(date.year, date.month) }
}

/// The last day of the year that `date` falls in.
pub fn last_day_in_year(date: &Date) -> (r: Date)
    requires
        date.wf(),
    ensures
        r == (Date { year: date.year, month: 12, day: 31 }),
        r.wf(),
{
    Date { year: date.year, month: 12, day: 31 }
}

/// How much of a calendar day a piece of date text pins down.
#[derive(Clone, Copy, Debug, PartialEq, Eq, Structural)]
pub enum DateCompleteness {
    YearOnly,
    YearAndMonth,
    FullDate,
    FullDateRange,
    NotADate,
}

/// Whether the range runs from the first to the last day of one year.
pub open spec fn spec_is_partial_just_year(earliest: Date, latest: Date) -> bool {
    &&& earliest.year == latest.year
    &&& earliest.month == 1
    &&& earliest.day == 1
    &&& latest.month == 12
    &&& latest.day == 31
}

/// Whether the range runs from the first to the last day of one month.
pub open spec fn spec_is_partial_just_year_and_month(earliest: Date, latest: Date) -> bool {
    &&& earliest.year == latest.year
    &&& earliest.month == latest.month
    &&& earliest.day == 1
    &&& latest.day == spec_days_in_month(earliest.year as int, earliest.month as int)
}

/// The completeness a range of days exhibits: a single day, a whole month,
/// a whole year, or an arbitrary range.
pub open spec fn spec_paired_completeness(earliest: Date, latest: Date) -> DateCompleteness {
    if earliest == latest {
        DateCompleteness::FullDate
    } else if spec_is_partial_just_year_and_month(earliest, latest) {
        DateCompleteness::YearAndMonth
    } else if spec_is_partial_just_year(earliest, latest) {
        DateCompleteness::YearOnly
    } else {
        DateCompleteness::FullDateRange
    }
}

/// Whether the range runs from the first to the last day of one year.
pub fn is_partial_just_year(earliest_date: &Date, latest_date: &Date) -> (r: bool)
    ensures
        r == spec_is_partial_just_year(*earliest_date, *latest_date),
{
    if earliest_date.year == latest_date.year {
        earliest_date.month == 1 && earliest_date.day == 1 && latest_date.month == 12
            && latest_date.day == 31
    } else {
        false
    }
}

/// Whether the range runs from the first to the last day of one month.
pub fn is_partial_just_year_and_month(earliest_date: &Date, latest_date: &Date) -> (r: bool)
    requires
        earliest_date.wf(),
    ensures
        r == spec_is_partial_just_year_and_month(*earliest_date, *latest_date),
{
    if earliest_date.month == latest_date.month && earliest_date.year == latest_date.year {
        let latest_in_month = last_day_in_month(earliest_date);
        earliest_date.day == 1 && latest_date.day == latest_in_month.day
    } else {
        false
    }
}

/// The completeness of a range of days.
pub fn get_paired_completeness(earliest_date: &Date, latest_date: &Date) -> (r: DateCompleteness)
    requires
        earliest_date.wf(),
    ensures
        r == spec_paired_completeness(*earliest_date, *latest_date),
{
    if earliest_date == latest_date {
        DateCompleteness::FullDate
    } else if is_partial_just_year_and_month(earliest_date, latest_date) {
        DateCompleteness::YearAndMonth
    } else if is_partial_just_year(earliest_date, latest_date) {
        DateCompleteness::YearOnly
    } else {
        DateCompleteness::FullDateRange
    }
}

/// The completeness that date text of this length can have: four
/// characters name a year, seven a month, ten a day.
pub open spec fn spec_length_completeness(len: int) -> DateCompleteness {
    if len == 4 {
        DateCompleteness::YearOnly
    } else if len == 7 {
        DateCompleteness::YearAndMonth
    } else if len == 10 {
        DateCompleteness::FullDate
    } else {
        DateCompleteness::NotADate
    }
}

/// The completeness of a date string, judged by its length alone.
pub fn determine_completeness(date: &str) -> (r: DateCompleteness)
    ensures
        r == spec_length_completeness(date@.len() as int),
{
    let n = date.unicode_len();
    if n == 4 {
        DateCompleteness::YearOnly
    } else if n == 7 {
        DateCompleteness::YearAndMonth
    } else if n == 10 {
        DateCompleteness::FullDate
    } else {
        DateCompleteness::NotADate
    }
}

/// Whether every character of `s` is a digit or a dash.
pub open spec fn spec_digits_and_dashes(s: Seq<char>) -> bool {
    forall|i: int| 0 <= i < s.len() ==> spec_is_digit(#[trigger] s[i]) || s[i] == '-'
}

/// The year named by the first four characters of `s`.
pub open spec fn spec_year_at(s: Seq<char>) -> int {
    spec_char_digit(s[0]) * 1000 + spec_char_digit(s[1]) * 100 + spec_char_digit(s[2]) * 10
        + spec_char_digit(s[3])
}

/// The two-digit number at position `at` of `s`.
pub open spec fn spec_two_digits_at(s: Seq<char>, at: int) -> int {
    spec_char_digit(s[at]) * 10 + spec_char_digit(s[at + 1])
}

/// The day range start named by a single piece of date text: `YYYY` means
/// the first of January, `YYYY-MM` the first of the month, `YYYY-MM-DD`
/// the day itself.  Text of any other shape names nothing.
pub open spec fn spec_parse_single_date(s: Seq<char>) -> Option<Date> {
    if !spec_digits_and_dashes(s) {
        None
    } else if s.len() == 4 {
        if spec_is_digit(s[0]) && spec_is_digit(s[1]) && spec_is_digit(s[2]) && spec_is_digit(
            s[3],
        ) {
            spec_date_option(spec_year_at(s), 1, 1)
        } else {
            None
        }
    } else if s.len() == 7 {
        if spec_is_digit(s[0]) && spec_is_digit(s[1]) && spec_is_digit(s[2]) && spec_is_digit(s[3])
            && spec_is_digit(s[5]) && spec_is_digit(s[6]) {
            spec_date_option(spec_year_at(s), spec_two_digits_at(s, 5), 1)
        } else {
            None
        }
    } else if s.len() == 10 {
        if spec_is_digit(s[0]) && spec_is_digit(s[1]) && spec_is_digit(s[2]) && spec_is_digit(s[3])
            && s[4] == '-' && spec_is_digit(s[5]) && spec_is_digit(s[6]) && s[7] == '-'
            && spec_is_digit(s[8]) && spec_is_digit(s[9]) {
            spec_date_option(spec_year_at(s), spec_two_digits_at(s, 5), spec_two_digits_at(s, 8))
        } else {
            None
        }
    } else {
        None
    }
}

/// The day named by `(y, m, d)`, when valid.
pub open spec fn spec_date_option(y: int, m: int, d: int) -> Option<Date> {
    if spec_valid_ymd(y, m, d) {
        Some(Date { year: y as i32, month: m as u8, day: d as u8 })
    } else {
        None
    }
}

/// Date text that could not be understood.
#[derive(Clone, Copy, Debug, PartialEq, Eq, Structural)]
pub enum DateParseError {
    /// The text is not a date of one of the supported shapes.
    InvalidDate,
}

/// The digit value of `c`.
fn char_digit(c: char) -> (r: u32)
    requires
        spec_is_digit(c),
    ensures
        r == spec_char_digit(c),
{
    c as u32 - '0' as u32
}

/// Whether `c` is a decimal digit.
fn is_digit(c: char) -> (r: bool)
    ensures
        r == spec_is_digit(c),
{
    '0' <= c && c <= '9'
}

/// Parses one piece of incomplete date text: `YYYY`, `YYYY-MM` or
/// `YYYY-MM-DD`, in years 0 through 9999.
pub fn parse_single_date(date: &str) -> (r: Result<Date, DateParseError>)
    ensures
        match r {
            Ok(d) => spec_parse_single_date(date@) == Some(d),
            Err(_) => spec_parse_single_date(date@) is None,
        },
{
    let n = date.unicode_len();
    for i in 0..n
        invariant
            n == date@.len(),
            forall|j: int| 0 <= j < i ==> spec_is_digit(#[trigger] date@[j]) || date@[j] == '-',
    {
        let c = date.get_char(i);
        if !is_digit(c) && c != '-' {
            return Err(DateParseError::InvalidDate);
        }
    }
    if n == 4 {
        let c0 = date.get_char(0);
        let c1 = date.get_char(1);
        let c2 = date.get_char(2);
        let c3 = date.get_char(3);
        if is_digit(c0) && is_digit(c1) && is_digit(c2) && is_digit(c3) {
            let y = char_digit(c0) * 1000 + char_digit(c1) * 100 + char_digit(c2) * 10
                + char_digit(c3);
            match Date::from_ymd(y as i32, 1, 1) {
                Some(d) => Ok(d),
                None => Err(DateParseError::InvalidDate),
            }
        } else {
            Err(DateParseError::InvalidDate)
        }
    } else if n == 7 {
        let c0 = date.get_char(0);
        let c1 = date.get_char(1);
        let c2 = date.get_char(2);
        let c3 = date.get_char(3);
        let c5 = date.get_char(5);
        let c6 = date.get_char(6);
        if is_digit(c0) && is_digit(c1) && is_digit(c2) && is_digit(c3) && is_digit(c5) && is_digit(
            c6,
        ) {
            let y = char_digit(c0) * 1000 + char_digit(c1) * 100 + char_digit(c2) * 10
                + char_digit(c3);
            let m = char_digit(c5) * 10 + char_digit(c6);
            match Date::from_ymd(y as i32, m as u8, 1) {
                Some(d) => Ok(d),
                None => Err(DateParseError::InvalidDate),
            }
        } else {
            Err(DateParseError::InvalidDate)
        }
    } else if n == 10 {
        let c0 = date.get_char(0);
        let c1 = date.get_char(1);
        let c2 = date.get_char(2);
        let c3 = date.get_char(3);
        let c4 = date.get_char(4);
        let c5 = date.get_char(5);
        let c6 = date.get_char(6);
        let c7 = date.get_char(7);
        let c8 = date.get_char(8);
        let c9 = date.get_char(9);
        if is_digit(c0) && is_digit(c1) && is_digit(c2) && is_digit(c3) && c4 == '-' && is_digit(
            c5,
        ) && is_digit(c6) && c7 == '-' && is_digit(c8) && is_digit(c9) {
            let y = char_digit(c0) * 1000 + char_digit(c1) * 100 + char_digit(c2) * 10
                + char_digit(c3);
            let m = char_digit(c5) * 10 + char_digit(c6);
            let d = char_digit(c8) * 10 + char_digit(c9);
            match Date::from_ymd(y as i32, m as u8, d as u8) {
                Some(d) => Ok(d),
                None => Err(DateParseError::InvalidDate),
            }
        } else {
            Err(DateParseError::InvalidDate)
        }
    } else {
        Err(DateParseError::InvalidDate)
    }
}

/// A range of calendar days together with the completeness of the text
/// that named it.
#[derive(Clone, Copy, Debug, PartialEq, Eq, Structural)]
pub struct FuzzyDate {
    pub earliest_date: Date,
    pub latest_date: Date,
    pub completeness: DateCompleteness,
}

/// The fuzzy date named by a whole piece of date text: one part, or two
/// parts separated by `/` for an explicit range.
pub open spec fn spec_fromisoformat(s: Seq<char>) -> Option<FuzzyDate> {
    let slash = spec_find_char(s, '/', 0);
    if slash == s.len() {
        match spec_parse_single_date(s) {
            None => None,
            Some(start) => match spec_length_completeness(s.len() as int) {
                DateCompleteness::YearOnly => Some(
                    FuzzyDate {
                        earliest_date: start,
                        latest_date: Date { year: start.year, month: 12, day: 31 },
                        completeness: DateCompleteness::YearOnly,
                    },
                ),
                DateCompleteness::YearAndMonth => Some(
                    FuzzyDate {
                        earliest_date: start,
                        latest_date: Date {
                            year: start.year,
                            month: start.month,
                            day: spec_days_in_month(start.year as int, start.month as int) as u8,
                        },
                        completeness: DateCompleteness::YearAndMonth,
                    },
                ),
                DateCompleteness::FullDate => Some(
                    FuzzyDate {
                        earliest_date: start,
                        latest_date: start,
                        completeness: DateCompleteness::FullDate,
                    },
                ),
                _ => None,
            },
        }
    } else {
        let second = spec_find_char(s, '/', slash + 1);
        if second != s.len() {
            None
        } else {
            match (spec_parse_single_date(s.subrange(0, slash)), spec_parse_single_date(
                s.subrange(slash + 1, s.len() as int),
            )) {
                (Some(start), Some(end)) => Some(
                    FuzzyDate {
                        earliest_date: start,
                        latest_date: end,
                        completeness: DateCompleteness::FullDateRange,
                    },
                ),
                _ => None,
            }
        }
    }
}

/// The single-day text form of a date: `YYYY-MM-DD`.
pub open spec fn spec_full_date_text(d: Date) -> Seq<char> {
    spec_pad4(d.year as nat) + seq!['-'] + spec_pad2(d.month as nat) + seq!['-'] + spec_pad2(
        d.day as nat,
    )
}

/// The text form of a fuzzy date, as complete as the range is precise.
pub open spec fn spec_isoformat(f: FuzzyDate) -> Seq<char> {
    match f.completeness {
        DateCompleteness::YearOnly => spec_dec_string(f.earliest_date.year as nat),
        DateCompleteness::YearAndMonth => spec_dec_string(f.earliest_date.year as nat)
            + seq!['-'] + spec_pad2(f.earliest_date.month as nat),
        DateCompleteness::FullDate => spec_full_date_text(f.earliest_date),
        DateCompleteness::FullDateRange => spec_full_date_text(f.earliest_date) + seq!['/']
            + spec_full_date_text(f.latest_date),
        DateCompleteness::NotADate => "Invalid date"@,
    }
}

impl FuzzyDate {
    /// Whether both endpoints name days of supported years.
    pub open spec fn wf(self) -> bool {
        self.earliest_date.wf() && self.latest_date.wf()
    }

    /// A fuzzy date spanning `earliest_date..=latest_date`, with the
    /// completeness the pair exhibits.
    pub fn new(earliest_date: Date, latest_date: Date) -> (r: FuzzyDate)
        requires
            earliest_date.wf(),
            latest_date.wf(),
        ensures
            r.earliest_date == earliest_date,
            r.latest_date == latest_date,
            r.completeness == spec_paired_completeness(earliest_date, latest_date),
            r.wf(),
    {
        let completeness = get_paired_completeness(&earliest_date, &latest_date);
        FuzzyDate { earliest_date, latest_date, completeness }
    }

    /// Moves the start of the range, rejudging its completeness.
    pub fn set_earliest(&mut self, earliest_date: Date)
        requires
            earliest_date.wf(),
            old(self).wf(),
        ensures
            final(self).earliest_date == earliest_date,
            final(self).latest_date == old(self).latest_date,
            final(self).completeness == spec_paired_completeness(
                earliest_date,
                old(self).latest_date,
            ),
            final(self).wf(),
    {
        self.earliest_date = earliest_date;
        self.completeness = get_paired_completeness(&self.earliest_date, &self.latest_date);
    }

    /// Moves the end of the range, rejudging its completeness.
    pub fn set_latest(&mut self, latest_date: Date)
        requires
            latest_date.wf(),
            old(self).wf(),
        ensures
            final(self).earliest_date == old(self).earliest_date,
            final(self).latest_date == latest_date,
            final(self).completeness == spec_paired_completeness(
                old(self).earliest_date,
                latest_date,
            ),
            final(self).wf(),
    {
        self.latest_date = latest_date;
        self.completeness = get_paired_completeness(&self.earliest_date, &self.latest_date);
    }

    /// The text form of this fuzzy date.
    pub fn isoformat(&self) -> (r: String)
        requires
            self.wf(),
        ensures
            r@ == spec_isoformat(*self),
    {
        match self.completeness {
            DateCompleteness::YearOnly => usize_dec_string(self.earliest_date.year as usize),
            DateCompleteness::YearAndMonth => {
                let mut s = usize_dec_string(self.earliest_date.year as usize);
                push_char(&mut s, '-');
                s.append(pad2(self.earliest_date.month as usize).as_str());
                proof {
                    assert(s@ =~= spec_isoformat(*self));
                }
                s
            },
            DateCompleteness::FullDate => full_date_text(&self.earliest_date),
            DateCompleteness::FullDateRange => {
                let mut s = full_date_text(&self.earliest_date);
                push_char(&mut s, '/');
                s.append(full_date_text(&self.latest_date).as_str());
                proof {
                    assert(s@ =~= spec_isoformat(*self));
                }
                s
            },
            DateCompleteness::NotADate => "Invalid date".to_owned(),
        }
    }

    /// Parses date text: one part (`YYYY`, `YYYY-MM`, `YYYY-MM-DD`) naming
    /// the range it spans, or two parts separated by `/` naming an
    /// explicit range.
    pub fn fromisoformat(iso8601_date_string: &str) -> (r: Result<FuzzyDate, DateParseError>)
        ensures
            match r {
                Ok(f) => spec_fromisoformat(iso8601_date_string@) == Some(f),
                Err(_) => spec_fromisoformat(iso8601_date_string@) is None,
            },
    {
        let s = iso8601_date_string;
        let n = s.unicode_len();
        let slash = find_char(s, '/', 0);
        if slash == n {
            let start = match parse_single_date(s) {
                Ok(d) => d,
                Err(e) => {
                    return Err(e);
                },
            };
            match determine_completeness(s) {
                DateCompleteness::YearOnly => Ok(
                    FuzzyDate {
                        earliest_date: start,
                        latest_date: last_day_in_year(&start),
                        completeness: DateCompleteness::YearOnly,
                    },
                ),
                DateCompleteness::YearAndMonth => Ok(
                    FuzzyDate {
                        earliest_date: start,
                        latest_date: last_day_in_month(&start),
                        completeness: DateCompleteness::YearAndMonth,
                    },
                ),
                DateCompleteness::FullDate => Ok(
                    FuzzyDate {
                        earliest_date: start,
                        latest_date: start,
                        completeness: DateCompleteness::FullDate,
                    },
                ),
                _ => Err(DateParseError::InvalidDate),
            }
        } else {
            let second = find_char(s, '/', slash + 1);
            if second != n {
                return Err(DateParseError::InvalidDate);
            }
            let first_part = s.substring_char(0, slash);
            let second_part = s.substring_char(slash + 1, n);
            let start = match parse_single_date(first_part) {
                Ok(d) => d,
                Err(e) => {
                    return Err(e);
                },
            };
            let end = match parse_single_date(second_part) {
                Ok(d) => d,
                Err(e) => {
                    return Err(e);
                },
            };
            Ok(
                FuzzyDate {
                    earliest_date: start,
                    latest_date: end,
                    completeness: DateCompleteness::FullDateRange,
                },
            )
        }
    }

    /// Whether `date` falls inside this range, endpoints included.
    pub fn approx_equal(&self, date: &Date) -> (r: bool)
        ensures
            r == (self.earliest_date.spec_le(*date) && date.spec_le(self.latest_date)),
    {
        self.earliest_date.le(date) && date.le(&self.latest_date)
    }

    /// Whether two fuzzy dates agree: their ranges coincide, or either
    /// holds an endpoint of the other.
    pub fn fuzzy_eq(&self, other: &FuzzyDate) -> (r: bool)
        ensures
            r == ({
                ||| (self.earliest_date == other.earliest_date && self.latest_date
                    == other.latest_date)
                ||| (self.earliest_date.spec_le(other.earliest_date)
                    && other.earliest_date.spec_le(self.latest_date))
                ||| (self.earliest_date.spec_le(other.latest_date) && other.latest_date.spec_le(
                    self.latest_date,
                ))
                ||| (other.earliest_date.spec_le(self.earliest_date)
                    && self.earliest_date.spec_le(other.latest_date))
                ||| (other.earliest_date.spec_le(self.latest_date) && self.latest_date.spec_le(
                    other.latest_date,
                ))
            }),
    {
        (self.earliest_date == other.earliest_date && self.latest_date == other.latest_date)
            || self.approx_equal(&other.earliest_date) || self.approx_equal(&other.latest_date)
            || other.approx_equal(&self.earliest_date) || other.approx_equal(&self.latest_date)
    }

    /// Calendar order of two ranges: one is less or greater only when the
    /// ranges are disjoint; ranges that touch are treated as equal.
    pub fn compare(&self, other: &FuzzyDate) -> (r: Ordering)
        ensures
            r == if self.latest_date.spec_le(other.earliest_date) && self.latest_date
                != other.earliest_date {
                Ordering::Less
            } else if other.latest_date.spec_le(self.earliest_date) && other.latest_date
                != self.earliest_date {
                Ordering::Greater
            } else {
                Ordering::Equal
            },
    {
        if self.latest_date.le(&other.earliest_date) && !(self.latest_date
            == other.earliest_date) {
            Ordering::Less
        } else if other.latest_date.le(&self.earliest_date) && !(other.latest_date
            == self.earliest_date) {
            Ordering::Greater
        } else {
            Ordering::Equal
        }
    }

    /// Where a single day stands relative to this range: after it, before
    /// it, or within it.
    pub fn compare_date(&self, date: &Date) -> (r: Ordering)
        ensures
            r == if self.latest_date.spec_le(*date) && self.latest_date != *date {
                Ordering::Less
            } else if date.spec_le(self.earliest_date) && *date != self.earliest_date {
                Ordering::Greater
            } else {
                Ordering::Equal
            },
    {
        if self.latest_date.le(date) && !(self.latest_date == *date) {
            Ordering::Less
        } else if date.le(&self.earliest_date) && !(*date == self.earliest_date) {
            Ordering::Greater
        } else {
            Ordering::Equal
        }
    }
}

/// The single-day text form of a date: `YYYY-MM-DD`.
fn full_date_text(d: &Date) -> (r: String)
    requires
        d.wf(),
    ensures
        r@ == spec_full_date_text(*d),
{
    let mut s = pad4(d.year as usize);
    push_char(&mut s, '-');
    s.append(pad2(d.month as usize).as_str());
    push_char(&mut s, '-');
    s.append(pad2(d.day as usize).as_str());
    proof {
        assert(s@ =~= spec_full_date_text(*d));
    }
    s
}

} // verus!
