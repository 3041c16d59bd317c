use quantsupport::rates::enums::Compounding;
use quantsupport::rates::interestrate::RateDefinition;
use quantsupport::time::{DayCounter, Frequency};

#[test]
fn test_rate_definition_new() {
    let rd = RateDefinition::new(
        DayCounter::Actual360,
        Compounding::Simple,
        Frequency::Annual,
    );
    assert_eq!(rd.compounding(), Compounding::Simple);
    assert_eq!(rd.frequency(), Frequency::Annual);
    assert_eq!(rd.day_counter(), DayCounter::Actual360);
}

#[test]
fn test_rate_definition_common_definition() {
    let rd = RateDefinition::default();
    assert_eq!(rd.compounding(), Compounding::Simple);
    assert_eq!(rd.frequency(), Frequency::Annual);
    assert_eq!(rd.day_counter(), DayCounter::Actual360);
}

#[test]
fn compounding_from_str_accepts_every_name() {
    assert_eq!(Compounding::from_str("Simple").unwrap(), Compounding::Simple);
    assert_eq!(Compounding::from_str("Compounded").unwrap(), Compounding::Compounded);
    assert_eq!(Compounding::from_str("Continuous").unwrap(), Compounding::Continuous);
    assert_eq!(
        Compounding::from_str("SimpleThenCompounded").unwrap(),
        Compounding::SimpleThenCompounded
    );
    assert_eq!(
        Compounding::from_str("CompoundedThenSimple").unwrap(),
        Compounding::CompoundedThenSimple
    );
}

#[test]
fn compounding_from_str_rejects_unknown_names() {
    assert!(Compounding::from_str("simple").is_err());
    assert!(Compounding::from_str("").is_err());
    assert!(Compounding::from_str("Continuous ").is_err());
}

#[test]
fn frequency_numbers_count_periods_per_year() {
    assert_eq!(Frequency::Annual.periods_per_year(), 1);
    assert_eq!(Frequency::Semiannual.periods_per_year(), 2);
    assert_eq!(Frequency::Quarterly.periods_per_year(), 4);
    assert_eq!(Frequency::Monthly.periods_per_year(), 12);
    assert_eq!(Frequency::Weekly.periods_per_year(), 52);
    assert_eq!(Frequency::Daily.periods_per_year(), 365);
    assert_eq!(Frequency::NoFrequency.periods_per_year(), -1);
    assert_eq!(Frequency::Once.periods_per_year(), 0);
}
