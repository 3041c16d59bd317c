use quantsupport::errors::QSError;
use quantsupport::quotes::quote::{Quote, QuoteLevels};
use quantsupport::quotes::quotedetails::QuoteDetails;
use quantsupport::quotes::quotestore::QuoteStore;
use quantsupport::quotes::scenario::{Scenario, ScenarioType};
use quantsupport::time::Date;
use std::str::FromStr;

fn store_with(identifiers: &[(&str, f64)]) -> QuoteStore<f64> {
    let mut store = QuoteStore::new(Date::new(2025, 11, 11));
    for (id, mid) in identifiers {
        let details = QuoteDetails::from_str(id).expect("valid identifier");
        store.add_quote(Quote::new(details, QuoteLevels::with_mid(*mid)));
    }
    store
}

/// The value of `v` under the scenario's shock.
fn shocked_value(scenario: &Scenario<f64>, v: f64) -> f64 {
    match scenario.scenario_type() {
        ScenarioType::Absolute => v + scenario.shock(),
        ScenarioType::Relative => v * (1.0 + scenario.shock()),
    }
}

#[test]
fn parses_scenario_type() {
    assert_eq!(
        "absolute".parse::<ScenarioType>().expect("parses"),
        ScenarioType::Absolute
    );
    assert_eq!(
        "Relative".parse::<ScenarioType>().expect("parses"),
        ScenarioType::Relative
    );
    assert!("banana".parse::<ScenarioType>().is_err());
}

#[test]
fn matches_exact_identifier() {
    let scenario = Scenario::new("OIS_USD_SOFR_1Y".to_string(), 0.01, ScenarioType::Absolute);
    assert!(scenario.matches("OIS_USD_SOFR_1Y"));
    assert!(!scenario.matches("OIS_USD_SOFR_2Y"));
}

#[test]
fn matches_segment_subset() {
    let scenario = Scenario::new("SOFR".to_string(), 0.01, ScenarioType::Absolute);
    assert!(scenario.matches("OIS_USD_SOFR_1Y"));
    assert!(scenario.matches("OIS_USD_SOFR_10Y"));
    // Distinct index segment must not match.
    assert!(!scenario.matches("BasisSwap_USD_TermSOFR3m_TermSOFR3m_1Y"));

    let partial = Scenario::new("OIS_USD_SOFR".to_string(), 0.01, ScenarioType::Absolute);
    assert!(partial.matches("OIS_USD_SOFR_2Y"));
    // Deposit has USD and SOFR segments but no OIS segment.
    assert!(!partial.matches("FixedRateDeposit_USD_SOFR_3M"));
}

#[test]
fn scenario_type_parse_ignores_ascii_case_only() {
    assert_eq!("ABSOLUTE".parse::<ScenarioType>().unwrap(), ScenarioType::Absolute);
    assert_eq!("rElAtIvE".parse::<ScenarioType>().unwrap(), ScenarioType::Relative);
    assert!("absolutely".parse::<ScenarioType>().is_err());
}

#[test]
fn scenario_accessors() {
    let s = Scenario::new("SOFR".to_string(), 0.5, ScenarioType::Relative);
    assert_eq!(s.target(), "SOFR");
    assert_eq!(s.shock(), 0.5);
    assert_eq!(s.scenario_type(), ScenarioType::Relative);
}

#[test]
fn applies_absolute_shock() {
    let mut store = store_with(&[("OIS_USD_SOFR_1Y", 0.04), ("OIS_USD_SOFR_2Y", 0.042)]);
    let scenario = Scenario::new("SOFR".to_string(), 0.01, ScenarioType::Absolute);
    let count = scenario
        .apply(&mut store, |v| shocked_value(&scenario, v))
        .expect("scenario applies");
    assert_eq!(count, 2);
    let mid = store
        .quote("OIS_USD_SOFR_1Y")
        .and_then(|q| q.levels().mid())
        .expect("mid exists");
    assert!((mid - 0.05).abs() < 1e-12);
}

#[test]
fn applies_relative_shock() {
    let mut store = store_with(&[("OIS_USD_SOFR_1Y", 0.04)]);
    let scenario = Scenario::new("OIS_USD_SOFR_1Y".to_string(), 0.5, ScenarioType::Relative);
    scenario
        .apply(&mut store, |v| shocked_value(&scenario, v))
        .expect("scenario applies");
    let mid = store
        .quote("OIS_USD_SOFR_1Y")
        .and_then(|q| q.levels().mid())
        .expect("mid exists");
    assert!((mid - 0.06).abs() < 1e-12);
}

#[test]
fn errors_when_no_quote_matches() {
    let mut store = store_with(&[("OIS_USD_SOFR_1Y", 0.04)]);
    let scenario = Scenario::new("EURIBOR".to_string(), 0.01, ScenarioType::Absolute);
    assert!(scenario.apply(&mut store, |v| shocked_value(&scenario, v)).is_err());
}

#[test]
fn unmatched_quotes_and_missing_levels_are_kept() {
    let mut store = store_with(&[("OIS_USD_SOFR_1Y", 0.04), ("FixedRateDeposit_EUR_ESTR_3M", 0.03)]);
    let details = QuoteDetails::from_str("OIS_USD_SOFR_5Y").unwrap();
    store.add_quote(Quote::new(details, QuoteLevels::new(None, Some(0.02), Some(0.03))));
    let scenario = Scenario::new("USD".to_string(), 0.001, ScenarioType::Absolute);
    let count = scenario.apply(&mut store, |v| shocked_value(&scenario, v)).unwrap();
    assert_eq!(count, 2);
    let eur = store.quote("FixedRateDeposit_EUR_ESTR_3M").unwrap();
    assert_eq!(eur.levels().mid(), Some(0.03));
    let five = store.quote("OIS_USD_SOFR_5Y").unwrap();
    assert_eq!(five.levels().mid(), None);
    assert!((five.levels().bid().unwrap() - 0.021).abs() < 1e-12);
    assert!((five.levels().ask().unwrap() - 0.031).abs() < 1e-12);
}

#[test]
fn no_match_error_names_the_target() {
    let mut store = store_with(&[("OIS_USD_SOFR_1Y", 0.04)]);
    let scenario = Scenario::new("EURIBOR".to_string(), 0.01, ScenarioType::Absolute);
    match scenario.apply(&mut store, |v| shocked_value(&scenario, v)) {
        Err(QSError::NoMatchingQuote(t)) => assert_eq!(t, "EURIBOR"),
        _ => panic!("NoMatchingQuote expected"),
    }
    assert_eq!(store.quote("OIS_USD_SOFR_1Y").unwrap().levels().mid(), Some(0.04));
}
