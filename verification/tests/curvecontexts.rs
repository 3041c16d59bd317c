use quantsupport::currencies::Currency;
use quantsupport::rates::enums::Compounding;
use quantsupport::rates::yieldproviderstore::YieldProviderStore;
use quantsupport::rates::yieldtermstructuremanager::{CurveContext, YieldTermStructureManager};
use quantsupport::time::{Date, DayCounter, Frequency, Period, TimeUnit};

/// A flat forward curve: a reference date and a rate with its conventions.
#[derive(Clone, Debug, PartialEq)]
struct FlatForwardTermStructure {
    reference_date: Date,
    rate: (f64, Compounding, Frequency, DayCounter),
}

impl FlatForwardTermStructure {
    fn new(reference_date: Date, rate: (f64, Compounding, Frequency, DayCounter)) -> Self {
        Self { reference_date, rate }
    }
}

/// An IBOR index of a tenor.
#[derive(Clone, Debug, PartialEq)]
struct IborIndex {
    tenor: Period,
}

impl IborIndex {
    fn new(tenor: Period) -> Self {
        Self { tenor }
    }
}

fn flat_one_percent() -> FlatForwardTermStructure {
    FlatForwardTermStructure::new(
        Date::new(2020, 1, 1),
        (0.01, Compounding::Simple, Frequency::Annual, DayCounter::Actual360),
    )
}

#[test]
fn test_curve_context_new() {
    let term_structure = flat_one_percent();
    let index = IborIndex::new(Period::new(1, TimeUnit::Months));
    let currency = Currency::USD;

    let context = CurveContext::new(1, term_structure, index, currency);

    assert_eq!(context.id(), 1);
    assert_eq!(context.currency(), Currency::USD);
    assert_eq!(context.term_structure(), &flat_one_percent());
    assert_eq!(context.interest_rate_index().tenor, Period::new(1, TimeUnit::Months));
}

#[test]
fn test_yield_term_structure_manager_add_and_get_by_name() {
    let mut manager = YieldTermStructureManager::new();
    let index = IborIndex::new(Period::new(1, TimeUnit::Months));
    manager.add_curve_context("curve1".to_string(), flat_one_percent(), index, Currency::USD);

    let context = manager.get_curve_context_by_name("curve1".to_string()).unwrap();
    assert_eq!(context.id(), 0);
    assert_eq!(context.currency(), Currency::USD);
    assert!(manager.get_curve_context_by_name("curve2".to_string()).is_none());
}

#[test]
fn test_yield_term_structure_manager_get_by_id() {
    let mut manager = YieldTermStructureManager::new();
    manager.add_curve_context(
        "curve1".to_string(),
        flat_one_percent(),
        IborIndex::new(Period::new(1, TimeUnit::Months)),
        Currency::USD,
    );
    manager.add_curve_context(
        "curve2".to_string(),
        flat_one_percent(),
        IborIndex::new(Period::new(1, TimeUnit::Months)),
        Currency::EUR,
    );

    let context = manager.get_curve_context_by_id(1).unwrap();
    assert_eq!(context.id(), 1);
    assert_eq!(context.currency(), Currency::EUR);
    assert!(manager.get_curve_context_by_id(2).is_none());
}

#[test]
fn a_reused_name_finds_the_first_context() {
    let mut manager = YieldTermStructureManager::new();
    manager.add_curve_context("curve".to_string(), 1u32, 10u32, Currency::USD);
    manager.add_curve_context("curve".to_string(), 2u32, 20u32, Currency::EUR);
    let context = manager.get_curve_context_by_name("curve".to_string()).unwrap();
    assert_eq!(context.id(), 0);
    assert_eq!(*context.term_structure(), 1);
}

#[test]
fn providers_by_name_and_id() {
    let mut store = YieldProviderStore::new();
    store.add_provider("USD".to_string(), 0.97_f64);
    store.add_provider("EUR".to_string(), 0.98_f64);
    store.add_provider("USD".to_string(), 0.5_f64);
    assert_eq!(store.get_provider_by_name("EUR".to_string()), Some(&0.98));
    assert_eq!(store.get_provider_by_name("USD".to_string()), Some(&0.97));
    assert_eq!(store.get_provider_by_name("CLP".to_string()), None);
    assert_eq!(store.get_provider_by_id(2), Some(&0.5));
    assert_eq!(store.get_provider_by_id(3), None);
}
