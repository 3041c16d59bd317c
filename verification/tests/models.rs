use quantsupport::currencies::Currency;
use quantsupport::models::simplemodel::{DiscountFactorSource, SimpleModel};
use quantsupport::rates::traits::HasReferenceDate;
use quantsupport::time::Date;

/// A market store known by its reference date.
struct Store(Date);

impl HasReferenceDate for Store {
    fn spec_reference_date(&self) -> Date {
        unreachable!()
    }
    fn reference_date(&self) -> Date {
        self.0
    }
}

#[test]
fn discount_factor_and_forward_sources_around_the_reference_date() {
    let store = Store(Date::new(2024, 6, 1));
    let model = SimpleModel::new(&store);
    assert_eq!(model.discount_factor_source(Date::new(2024, 5, 31)), DiscountFactorSource::Zero);
    assert_eq!(model.discount_factor_source(Date::new(2024, 6, 1)), DiscountFactorSource::One);
    assert_eq!(model.discount_factor_source(Date::new(2024, 6, 2)), DiscountFactorSource::Curve);
    assert!(!model.forward_rate_from_index(Date::new(2024, 6, 1)));
    assert!(model.forward_rate_from_index(Date::new(2024, 9, 1)));
}

#[test]
fn exchange_rate_currencies() {
    let store = Store(Date::new(2024, 6, 1));
    let model = SimpleModel::new(&store);
    assert_eq!(model.fx_currencies(Currency::EUR, None, Currency::CLP), (Currency::EUR, Currency::EUR));
    assert_eq!(model.fx_currencies(Currency::EUR, Some(Currency::USD), Currency::CLP), (Currency::EUR, Currency::USD));
    let model = model.with_transform_currencies(true);
    assert_eq!(model.fx_currencies(Currency::EUR, None, Currency::CLP), (Currency::EUR, Currency::CLP));
}
