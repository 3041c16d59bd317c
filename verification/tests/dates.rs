use quantsupport::time::{Date, Period, TimeUnit};

#[test]
fn month_ends_are_clamped() {
    assert_eq!(Date::new(2024, 1, 31).add_months(1), Date::new(2024, 2, 29));
    assert_eq!(Date::new(2023, 1, 31).add_months(1), Date::new(2023, 2, 28));
    assert_eq!(Date::new(2024, 3, 31).add_months(-1), Date::new(2024, 2, 29));
}

#[test]
fn days_cross_years() {
    let d = Date::new(2023, 12, 30);
    assert_eq!(d.add_days(3), Date::new(2024, 1, 2));
    assert_eq!(Date::new(2024, 1, 2).days_since(d), 3);
    assert_eq!(Date::new(2024, 3, 1).add_days(-1), Date::new(2024, 2, 29));
}

#[test]
fn periods_advance_dates() {
    let d = Date::new(2024, 6, 1);
    assert_eq!(d.advance(Period::new(6, TimeUnit::Months)), Date::new(2024, 12, 1));
    assert_eq!(d.advance(Period::new(1, TimeUnit::Years)), Date::new(2025, 6, 1));
    assert_eq!(d.advance(Period::new(2, TimeUnit::Weeks)), Date::new(2024, 6, 15));
    assert_eq!(d.advance(Period::new(10, TimeUnit::Days)), Date::new(2024, 6, 11));
}

#[test]
fn invalid_dates_are_rejected() {
    assert!(Date::from_ymd(2023, 2, 29).is_none());
    assert!(Date::from_ymd(2024, 2, 29).is_some());
    assert!(Date::from_ymd(2024, 13, 1).is_none());
    assert!(Date::new(2024, 1, 1).is_before(Date::new(2024, 1, 2)));
}
