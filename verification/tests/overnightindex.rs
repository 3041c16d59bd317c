use quantsupport::errors::QSError;
use quantsupport::rates::interestrate::RateDefinition;
use quantsupport::rates::interestrateindex::overnightindex::{OvernightIndex, OvernightRateSource};
use quantsupport::rates::traits::HasReferenceDate;
use quantsupport::time::{Date, Period, TimeUnit};

/// A flat forward curve: a reference date, a rate and its definition.
#[derive(Clone, Debug, PartialEq)]
struct FlatForwardTermStructure {
    reference_date: Date,
    rate: f64,
    rate_definition: RateDefinition,
}

impl FlatForwardTermStructure {
    fn new(reference_date: Date, rate: f64, rate_definition: RateDefinition) -> Self {
        Self { reference_date, rate, rate_definition }
    }
}

#[test]
fn test_new_overnight_index() {
    let date = Date::new(2021, 1, 1);
    let overnight_index = OvernightIndex::<f64, FlatForwardTermStructure>::new(date);
    assert_eq!(overnight_index.fixing(date), None);
    assert!(overnight_index.term_structure().is_none());
    assert_eq!(overnight_index.tenor(), Period::new(1, TimeUnit::Days));
}

#[test]
fn test_with_rate_definition() {
    let date = Date::new(2021, 1, 1);
    let overnight_index =
        OvernightIndex::<f64, FlatForwardTermStructure>::new(date).with_rate_definition(RateDefinition::default());
    assert_eq!(overnight_index.rate_definition(), RateDefinition::default());
}

#[test]
fn test_with_fixings() {
    let date = Date::new(2021, 1, 1);
    let fixings = vec![(Date::new(2021, 1, 1), 0.02)];
    let overnight_index = OvernightIndex::<f64, FlatForwardTermStructure>::new(date).with_fixings(fixings);
    assert_eq!(overnight_index.fixing(Date::new(2021, 1, 1)), Some(0.02));
}

#[test]
fn test_fixing() {
    let date = Date::new(2021, 1, 1);
    let fixings = vec![(Date::new(2021, 1, 1), 0.02)];
    let overnight_index = OvernightIndex::<f64, FlatForwardTermStructure>::new(date).with_fixings(fixings);

    assert_eq!(overnight_index.fixing(Date::new(2021, 1, 1)), Some(0.02));
    assert_eq!(overnight_index.fixing(Date::new(2021, 1, 2)), None);
}

#[test]
fn overnightindex_test_reference_date() {
    let date = Date::new(2021, 1, 1);
    let ref_date = Date::new(2021, 1, 1);
    let mut fixings = vec![(ref_date, 100.0)];
    let overnight_index = OvernightIndex::new(date)
        .with_fixings(fixings.clone())
        .with_term_structure(FlatForwardTermStructure::new(ref_date, 0.2, RateDefinition::default()));

    assert_eq!(overnight_index.reference_date(), ref_date);

    let next_date_2 = Date::new(2021, 1, 3);
    fixings.push((next_date_2, 100.0));
    let overnight_index = OvernightIndex::new(next_date_2)
        .with_term_structure(FlatForwardTermStructure::new(next_date_2, 0.2, RateDefinition::default()))
        .with_fixings(fixings);

    assert_eq!(overnight_index.reference_date(), next_date_2);
}

#[test]
fn average_rate_needs_both_fixings() {
    let start_date = Date::new(2021, 1, 1);
    let end_date = Date::new(2022, 1, 1);
    let index = OvernightIndex::<f64, FlatForwardTermStructure>::new(start_date)
        .with_fixings(vec![(start_date, 100.0), (end_date, 105.0)]);
    assert_eq!(index.average_rate_fixings(start_date, end_date).unwrap(), (100.0, 105.0));
    assert!(matches!(
        index.average_rate_fixings(start_date, Date::new(2021, 6, 1)),
        Err(QSError::NoFixingRate(d)) if d == Date::new(2021, 6, 1)
    ));
}

#[test]
fn forward_rate_sources_around_the_reference_date() {
    let rd = Date::new(2021, 1, 10);
    let mut index = OvernightIndex::<f64, FlatForwardTermStructure>::new(rd)
        .with_fixings(vec![(Date::new(2021, 1, 4), 100.0), (Date::new(2021, 1, 8), 100.1)]);
    assert_eq!(
        index.forward_rate_source(Date::new(2021, 1, 4), Date::new(2021, 1, 8)).unwrap(),
        OvernightRateSource::Past { start_fixing: 100.0, end_fixing: 100.1 }
    );
    assert!(matches!(
        index.forward_rate_source(Date::new(2021, 1, 4), Date::new(2021, 2, 1)),
        Err(QSError::NoFixingRate(d)) if d == rd
    ));
    index.add_fixing(rd, 100.2);
    assert!(matches!(
        index.forward_rate_source(Date::new(2021, 1, 4), Date::new(2021, 2, 1)),
        Err(QSError::NoTermStructure)
    ));
    assert!(matches!(
        index.forward_rate_source(rd, rd),
        Err(QSError::InvalidDate(d)) if d == rd
    ));
    let index = index.with_term_structure(FlatForwardTermStructure::new(rd, 0.02, RateDefinition::default()));
    assert_eq!(
        index.forward_rate_source(Date::new(2021, 1, 4), Date::new(2021, 2, 1)).unwrap(),
        OvernightRateSource::Mixed { reference_fixing: 100.2 }
    );
    assert_eq!(index.forward_rate_source(rd, Date::new(2021, 2, 1)).unwrap(), OvernightRateSource::Forecast);
}
