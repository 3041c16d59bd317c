use quantsupport::currencies::Currency::{CLP, EUR, GBP, JPY, USD};
use quantsupport::quotes::fxstore::{FxLeg, FxRateRecord, FxStore};

fn value(legs: &[FxLeg<f64>]) -> f64 {
    legs.iter().fold(1.0, |acc, leg| {
        if leg.inverted {
            acc / leg.rate
        } else {
            acc * leg.rate
        }
    })
}

#[test]
fn test_same_currency() {
    let store: FxStore<f64> = FxStore::new();
    let rate = value(&store.get_fx_rate(USD, USD).unwrap());
    assert!((rate - 1.0).abs() < f64::EPSILON);
}

#[test]
fn test_direct_rate() {
    let mut store = FxStore::new();
    store.add_fx_rate(USD, EUR, 0.85);

    let rate = value(&store.get_fx_rate(USD, EUR).unwrap());
    assert!((rate - 0.85).abs() < f64::EPSILON);
}

#[test]
fn test_inverse_rate() {
    let mut store = FxStore::new();
    store.add_fx_rate(USD, EUR, 0.85);

    let rate = value(&store.get_fx_rate(EUR, USD).unwrap());
    assert!((rate - 1.0 / 0.85).abs() < 1e-12);
}

#[test]
fn test_nonexistent_rate() {
    let store: FxStore<f64> = FxStore::new();
    assert!(store.get_fx_rate(USD, EUR).is_err());
}

#[test]
fn test_triangulation() {
    let mut store = FxStore::new();
    store.add_fx_rate(CLP, USD, 800.0);
    store.add_fx_rate(USD, EUR, 1.1);

    let clp_eur = value(&store.get_fx_rate(CLP, EUR).unwrap());
    assert!((clp_eur - 1.1 * 800.0).abs() < 1e-6);

    let eur_clp = value(&store.get_fx_rate(EUR, CLP).unwrap());
    assert!((eur_clp - 1.0 / (1.1 * 800.0)).abs() < 1e-12);
}

#[test]
fn fx_triangulation_legs_chain_through_stored_pairs() {
    let mut store = FxStore::new();
    store.add_fx_rate(CLP, USD, 800.0);
    store.add_fx_rate(USD, EUR, 1.1);
    let legs = store.get_fx_rate(EUR, CLP).unwrap();
    assert_eq!(legs.len(), 2);
    assert_eq!(legs[0].from, EUR);
    assert_eq!(legs[0].to, USD);
    assert!(legs[0].inverted);
    assert_eq!(legs[1].from, USD);
    assert_eq!(legs[1].to, CLP);
    assert!(legs[1].inverted);
}

#[test]
fn fx_overwrite_keeps_latest_rate() {
    let mut store = FxStore::new();
    store.add_fx_rate(USD, EUR, 0.85);
    store.add_fx_rate(USD, EUR, 0.9);
    let rate = value(&store.get_fx_rate(USD, EUR).unwrap());
    assert!((rate - 0.9).abs() < 1e-15);
}

#[test]
fn fx_disconnected_components_have_no_path() {
    let mut store = FxStore::new();
    store.add_fx_rate(USD, EUR, 0.85);
    store.add_fx_rate(CLP, quantsupport::currencies::Currency::PEN, 0.004);
    assert!(store.get_fx_rate(USD, CLP).is_err());
    assert!(store.get_fx_rate(quantsupport::currencies::Currency::PEN, EUR).is_err());
}

#[test]
fn fx_from_records() {
    let store = FxStore::from_records(vec![
        FxRateRecord { base: CLP, quote: USD, rate: 0.00111 },
        FxRateRecord { base: USD, quote: EUR, rate: 0.92 },
    ]);
    let r = value(&store.get_fx_rate(CLP, EUR).unwrap());
    assert!((r - 0.00111 * 0.92).abs() < 1e-15);
}

#[test]
fn test_pillars_labels() {
    let mut store = FxStore::new();
    store.add_fx_rate(USD, EUR, 0.92);
    store.add_fx_rate(USD, CLP, 950.0);

    let mut labels = store
        .pillars()
        .into_iter()
        .map(|((base, quote), _)| format!("{}/{}", base.code(), quote.code()))
        .collect::<Vec<String>>();
    labels.sort();
    assert_eq!(labels.len(), 2);
    assert!(labels.contains(&"USD/CLP".to_string()));
    assert!(labels.contains(&"USD/EUR".to_string()));
}

#[test]
fn conversions_exist_both_ways() {
    let mut store = FxStore::new();
    store.add_fx_rate(USD, EUR, 0.9);
    store.add_fx_rate(CLP, USD, 0.001);
    let there = value(&store.get_fx_rate(EUR, CLP).unwrap());
    let back = value(&store.get_fx_rate(CLP, EUR).unwrap());
    assert!((there * back - 1.0).abs() < 1e-12);
    assert_eq!(store.get_fx_rate(EUR, USD).unwrap().len(), 1);
}

#[test]
fn from_records_keeps_the_last_rate_of_each_pair() {
    let store = FxStore::from_records(vec![
        FxRateRecord { base: USD, quote: EUR, rate: 0.90_f64 },
        FxRateRecord { base: USD, quote: CLP, rate: 950.0 },
        FxRateRecord { base: USD, quote: EUR, rate: 0.92 },
    ]);
    let legs = store.get_fx_rate(USD, EUR).unwrap();
    assert_eq!(legs.len(), 1);
    assert!((legs[0].rate - 0.92).abs() < 1e-15);
    assert!((value(&store.get_fx_rate(USD, CLP).unwrap()) - 950.0).abs() < 1e-9);
}

#[test]
fn triangulation_takes_the_fewest_legs() {
    let mut store = FxStore::new();
    store.add_fx_rate(USD, JPY, 150.0);
    store.add_fx_rate(JPY, GBP, 0.005);
    store.add_fx_rate(GBP, CLP, 1200.0);
    store.add_fx_rate(USD, EUR, 0.9);
    store.add_fx_rate(EUR, CLP, 1050.0);
    let legs = store.get_fx_rate(USD, CLP).unwrap();
    assert_eq!(legs.len(), 2);
    assert!((value(&legs) - 0.9 * 1050.0).abs() < 1e-9);
}
