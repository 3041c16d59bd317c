use quantsupport::rates::interestrate::RateDefinition;
use quantsupport::rates::traits::HasReferenceDate;
use quantsupport::rates::yieldtermstructure::compositetermstructure::CompositeTermStructure;
use quantsupport::rates::yieldtermstructure::mixedtermstructure::MixedTermStructure;
use quantsupport::rates::yieldtermstructure::traits::{
    AdvanceInTimeError, AdvanceTermStructureInTime, YieldTermStructureTrait,
};
use quantsupport::rates::enums::Compounding;
use quantsupport::time::{Date, DayCounter, Frequency, Period, TimeUnit};

/// A flat forward curve: a reference date, a rate and its definition.
#[derive(Clone, Debug)]
struct FlatForwardTermStructure {
    reference_date: Date,
    rate: f64,
    rate_definition: RateDefinition,
}

impl FlatForwardTermStructure {
    fn new(reference_date: Date, rate: f64, rate_definition: RateDefinition) -> Self {
        Self { reference_date, rate, rate_definition }
    }
}

impl HasReferenceDate for FlatForwardTermStructure {
    fn spec_reference_date(&self) -> Date {
        unreachable!()
    }
    fn reference_date(&self) -> Date {
        self.reference_date
    }
}

impl AdvanceTermStructureInTime for FlatForwardTermStructure {
    fn spec_advance_to_period(&self, _period: Period) -> Result<Self, AdvanceInTimeError> {
        unreachable!()
    }
    fn spec_advance_to_date(&self, _date: Date) -> Result<Self, AdvanceInTimeError> {
        unreachable!()
    }
    fn advance_to_period(&self, period: Period) -> Result<Self, AdvanceInTimeError> {
        Ok(Self { reference_date: self.reference_date.advance(period), ..self.clone() })
    }
    fn advance_to_date(&self, date: Date) -> Result<Self, AdvanceInTimeError> {
        if date.is_before(self.reference_date) {
            return Err(AdvanceInTimeError::InvalidDate);
        }
        Ok(Self { reference_date: date, ..self.clone() })
    }
}

impl YieldTermStructureTrait for FlatForwardTermStructure {}

fn definition() -> RateDefinition {
    RateDefinition::new(DayCounter::Actual360, Compounding::Compounded, Frequency::Annual)
}

#[test]
fn compositetermstructure_test_reference_date() {
    let spread_curve = FlatForwardTermStructure::new(Date::new(2020, 1, 1), 0.1, definition());
    let base_curve = FlatForwardTermStructure::new(Date::new(2020, 1, 1), 0.2, definition());
    let spreaded_curve = CompositeTermStructure::new(spread_curve, base_curve);
    assert!(spreaded_curve.reference_date() == Date::new(2020, 1, 1));
}

#[test]
fn mixedtermstructure_test_reference_date() {
    let spread_curve = FlatForwardTermStructure::new(Date::new(2020, 1, 1), 0.01, definition());
    let base_curve = FlatForwardTermStructure::new(Date::new(2020, 1, 1), 0.02, definition());
    let spreaded_curve = MixedTermStructure::new(spread_curve, base_curve);
    assert!(spreaded_curve.reference_date() == Date::new(2020, 1, 1));
}

#[test]
fn composite_takes_the_base_reference_date_and_advances_both() {
    let spread_curve = FlatForwardTermStructure::new(Date::new(2020, 1, 1), 0.1, definition());
    let base_curve = FlatForwardTermStructure::new(Date::new(2020, 3, 1), 0.2, definition());
    let curve = CompositeTermStructure::new(spread_curve, base_curve);
    assert_eq!(curve.reference_date(), Date::new(2020, 3, 1));
    let moved = curve.advance_to_period(Period::new(1, TimeUnit::Months)).unwrap();
    assert_eq!(moved.reference_date(), Date::new(2020, 4, 1));
    assert_eq!(moved.spread_curve().reference_date(), Date::new(2020, 2, 1));
    assert!((moved.base_curve().rate - 0.2).abs() < 1e-15);
    assert!(curve.advance_to_date(Date::new(2020, 1, 15)).is_err());
}
