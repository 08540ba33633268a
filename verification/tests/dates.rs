use eppo_core::fuzzy_date::{
    days_in_month, get_paired_completeness, is_leap_year, last_day_in_month, last_day_in_year,
    parse_single_date, Date, DateCompleteness, FuzzyDate,
};
use std::cmp::Ordering;

fn date(year: i32, month: u8, day: u8) -> Date {
    Date { year, month, day }
}

#[test]
fn leap_years_and_month_lengths() {
    assert!(is_leap_year(2024));
    assert!(!is_leap_year(2023));
    assert!(!is_leap_year(1900));
    assert!(is_leap_year(2000));
    assert_eq!(days_in_month(2024, 2), 29);
    assert_eq!(days_in_month(2023, 2), 28);
    assert_eq!(days_in_month(2023, 4), 30);
    assert_eq!(days_in_month(2023, 12), 31);
    assert_eq!(last_day_in_month(&date(2024, 2, 10)), date(2024, 2, 29));
    assert_eq!(last_day_in_year(&date(2024, 2, 10)), date(2024, 12, 31));
}

#[test]
fn parse_single_pieces() {
    assert_eq!(parse_single_date("2023"), Ok(date(2023, 1, 1)));
    assert_eq!(parse_single_date("2023-10"), Ok(date(2023, 10, 1)));
    assert_eq!(parse_single_date("2023-10-05"), Ok(date(2023, 10, 5)));
    assert!(parse_single_date("banana").is_err());
    assert!(parse_single_date("20231").is_err());
    assert!(parse_single_date("2023-13").is_err());
    assert!(parse_single_date("2023-02-30").is_err());
    assert!(parse_single_date("2023.10.05").is_err());
    assert!(parse_single_date("").is_err());
}

#[test]
fn fromisoformat_spans_the_named_range() {
    let year = FuzzyDate::fromisoformat("2023").unwrap();
    assert_eq!(year.earliest_date, date(2023, 1, 1));
    assert_eq!(year.latest_date, date(2023, 12, 31));
    assert_eq!(year.completeness, DateCompleteness::YearOnly);

    let month = FuzzyDate::fromisoformat("2024-02").unwrap();
    assert_eq!(month.earliest_date, date(2024, 2, 1));
    assert_eq!(month.latest_date, date(2024, 2, 29));
    assert_eq!(month.completeness, DateCompleteness::YearAndMonth);

    let day = FuzzyDate::fromisoformat("2023-10-05").unwrap();
    assert_eq!(day.earliest_date, date(2023, 10, 5));
    assert_eq!(day.latest_date, date(2023, 10, 5));
    assert_eq!(day.completeness, DateCompleteness::FullDate);

    let range = FuzzyDate::fromisoformat("2023-01-01/2023-06-30").unwrap();
    assert_eq!(range.earliest_date, date(2023, 1, 1));
    assert_eq!(range.latest_date, date(2023, 6, 30));
    assert_eq!(range.completeness, DateCompleteness::FullDateRange);

    assert!(FuzzyDate::fromisoformat("2023/01/02").is_err());
    assert!(FuzzyDate::fromisoformat("not-a-date").is_err());
}

#[test]
fn isoformat_round_trips() {
    for text in ["2023", "2024-02", "2023-10-05", "2023-01-01/2023-06-30"] {
        let parsed = FuzzyDate::fromisoformat(text).unwrap();
        assert_eq!(parsed.isoformat(), text);
    }
    // A year below 1000 is zero-padded only in the full-date form.
    let early = FuzzyDate::fromisoformat("0800").unwrap();
    assert_eq!(early.isoformat(), "800");
    let early_day = FuzzyDate::fromisoformat("0800-03-04").unwrap();
    assert_eq!(early_day.isoformat(), "0800-03-04");
}

#[test]
fn paired_completeness_is_rejudged() {
    assert_eq!(
        get_paired_completeness(&date(2023, 1, 1), &date(2023, 12, 31)),
        DateCompleteness::YearOnly
    );
    assert_eq!(
        get_paired_completeness(&date(2023, 5, 1), &date(2023, 5, 31)),
        DateCompleteness::YearAndMonth
    );
    assert_eq!(
        get_paired_completeness(&date(2023, 5, 4), &date(2023, 5, 4)),
        DateCompleteness::FullDate
    );
    assert_eq!(
        get_paired_completeness(&date(2023, 5, 4), &date(2023, 8, 1)),
        DateCompleteness::FullDateRange
    );

    let mut f = FuzzyDate::new(date(2023, 1, 1), date(2023, 12, 31));
    assert_eq!(f.completeness, DateCompleteness::YearOnly);
    f.set_latest(date(2023, 1, 31));
    assert_eq!(f.completeness, DateCompleteness::YearAndMonth);
    f.set_earliest(date(2023, 1, 31));
    assert_eq!(f.completeness, DateCompleteness::FullDate);
}

#[test]
fn fuzzy_comparisons() {
    let june = FuzzyDate::fromisoformat("2023-06").unwrap();
    assert!(june.approx_equal(&date(2023, 6, 15)));
    assert!(june.approx_equal(&date(2023, 6, 1)));
    assert!(june.approx_equal(&date(2023, 6, 30)));
    assert!(!june.approx_equal(&date(2023, 7, 1)));

    let year = FuzzyDate::fromisoformat("2023").unwrap();
    assert!(june.fuzzy_eq(&year));
    assert!(year.fuzzy_eq(&june));
    let july = FuzzyDate::fromisoformat("2023-07").unwrap();
    assert!(!june.fuzzy_eq(&july));

    assert_eq!(june.compare(&july), Ordering::Less);
    assert_eq!(july.compare(&june), Ordering::Greater);
    assert_eq!(june.compare(&year), Ordering::Equal);

    assert_eq!(june.compare_date(&date(2023, 7, 1)), Ordering::Less);
    assert_eq!(june.compare_date(&date(2023, 5, 31)), Ordering::Greater);
    assert_eq!(june.compare_date(&date(2023, 6, 10)), Ordering::Equal);
}
