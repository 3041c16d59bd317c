use quantsupport::errors::QSError;
use quantsupport::rates::enums::Compounding;
use quantsupport::rates::interestrate::RateDefinition;
use quantsupport::rates::interestrateindex::iborindex::IborIndex;
use quantsupport::rates::traits::HasReferenceDate;
use quantsupport::time::{Date, DayCounter, Frequency, Period, TimeUnit};

/// A curve named by a label.
#[derive(Clone, Debug, PartialEq)]
struct Curve(&'static str);

#[test]
fn test_ibor_index() {
    let ref_date = Date::new(2021, 1, 1);
    let tenor = Period::new(1, TimeUnit::Months);
    let rate_definition = RateDefinition::new(DayCounter::Actual360, Compounding::Simple, Frequency::Annual);
    let ibor_index = IborIndex::<f64, Curve>::new(ref_date)
        .with_tenor(tenor)
        .with_rate_definition(rate_definition);
    assert_eq!(ibor_index.tenor(), tenor);
    assert_eq!(ibor_index.rate_definition().compounding(), Compounding::Simple);
    assert_eq!(ibor_index.rate_definition().frequency(), Frequency::Annual);
    assert_eq!(ibor_index.rate_definition().day_counter(), DayCounter::Actual360);
}

#[test]
fn fixings_and_forward_rate_sources() {
    let ref_date = Date::new(2021, 1, 10);
    let mut index = IborIndex::<f64, Curve>::new(ref_date)
        .with_fixings(vec![(Date::new(2021, 1, 4), 0.01), (Date::new(2021, 1, 5), 0.02), (Date::new(2021, 1, 4), 0.03)])
        .with_provider_id(Some(7));
    assert_eq!(index.reference_date(), ref_date);
    assert_eq!(index.provider_id(), Some(7));
    assert_eq!(index.fixing(Date::new(2021, 1, 4)), Some(0.03));
    assert_eq!(index.fixing(Date::new(2021, 1, 6)), None);
    index.add_fixing(Date::new(2021, 1, 6), 0.04);
    assert_eq!(index.fixing(Date::new(2021, 1, 6)), Some(0.04));

    let end = Date::new(2021, 2, 6);
    assert!(matches!(index.forward_rate_source(Date::new(2021, 1, 6), end), Ok(Some(r)) if r == 0.04));
    assert!(matches!(
        index.forward_rate_source(Date::new(2021, 1, 7), end),
        Err(QSError::NoFixingRate(d)) if d == Date::new(2021, 1, 7)
    ));
    assert!(matches!(index.forward_rate_source(ref_date, end), Err(QSError::NoTermStructure)));
    assert!(matches!(
        index.forward_rate_source(end, ref_date),
        Err(QSError::InvalidDateRange(a, b)) if a == end && b == ref_date
    ));
    let index = index.with_term_structure(Curve("EUR-6M"));
    assert_eq!(index.term_structure(), Some(&Curve("EUR-6M")));
    assert!(matches!(index.forward_rate_source(ref_date, end), Ok(None)));
}
