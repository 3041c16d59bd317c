use quantsupport::currencies::Currency;
use quantsupport::errors::QSError;
use quantsupport::indices::MarketIndex;
use quantsupport::quotes::quote::{Level, Quote, QuoteInstrument, QuoteLevels};
use quantsupport::quotes::quotedetails::QuoteDetails;
use quantsupport::quotes::quotestore::QuoteStore;
use quantsupport::rates::bootstrapping::creditcurvebootstrapper::CreditCurveBootstrapper;
use quantsupport::rates::bootstrapping::creditcurveconfiguration::CreditCurveConfiguration;
use quantsupport::time::Date;

fn store(quotes: &[(&str, f64)]) -> QuoteStore<f64> {
    let mut s = QuoteStore::new(Date::new(2024, 6, 1));
    for (id, spread) in quotes {
        s.add_quote(Quote::new(id.parse::<QuoteDetails>().unwrap(), QuoteLevels::with_mid(*spread)));
    }
    s
}

fn acme(ids: &[&str]) -> CreditCurveConfiguration<f64> {
    CreditCurveConfiguration::new(
        MarketIndex::Credit("ACME".to_string()),
        Currency::USD,
        MarketIndex::SOFR,
        0.4,
        ids.iter().map(|s| s.to_string()).collect(),
    )
}

#[test]
fn pillars_are_sorted_by_maturity() {
    let s = store(&[("Cds_ACME_USD_5Y", 0.012), ("Cds_ACME_USD_1Y", 0.008), ("Cds_ACME_USD_3Y", 0.01)]);
    let cfg = acme(&["Cds_ACME_USD_5Y", "Cds_ACME_USD_1Y", "Cds_ACME_USD_3Y"]);
    let pillars = CreditCurveBootstrapper::curve_pillars(&cfg, &s, Level::Mid, &vec![MarketIndex::SOFR]).unwrap();
    let dates: Vec<Date> = pillars.iter().map(|p| p.0).collect();
    assert_eq!(dates, vec![Date::new(2025, 6, 1), Date::new(2027, 6, 1), Date::new(2029, 6, 1)]);
    let spreads: Vec<f64> = pillars.iter().map(|p| p.1).collect();
    assert_eq!(spreads, vec![0.008, 0.01, 0.012]);
    assert_eq!(pillars[0].2, "Cds_ACME_USD_1Y");
}

#[test]
fn missing_discount_curve_comes_first() {
    let s = store(&[]);
    let cfg = acme(&["Cds_ACME_USD_5Y"]);
    let r = CreditCurveBootstrapper::curve_pillars::<f64, _>(&cfg, &s, Level::Mid, &vec![MarketIndex::ESTR]);
    assert!(matches!(r, Err(QSError::MissingCurve(MarketIndex::SOFR))));
}

#[test]
fn quote_errors_are_reported() {
    let s = store(&[("Cds_ACME_USD_5Y", 0.012)]);
    let r = CreditCurveBootstrapper::curve_pillars::<f64, _>(&acme(&["Cds_ACME_USD_7Y"]), &s, Level::Mid, &vec![MarketIndex::SOFR]);
    assert!(matches!(r, Err(QSError::QuoteNotFound(id)) if id == "Cds_ACME_USD_7Y"));
    let r = CreditCurveBootstrapper::curve_pillars::<f64, _>(&acme(&["Cds_ACME_USD_5Y"]), &s, Level::Ask, &vec![MarketIndex::SOFR]);
    assert!(matches!(r, Err(QSError::LevelNotAvailable)));

    let mut s2 = store(&[]);
    s2.add_quote(Quote::new(QuoteDetails::new("ACME5Y".to_string(), QuoteInstrument::Cds), QuoteLevels::with_mid(0.01)));
    let r = CreditCurveBootstrapper::curve_pillars::<f64, _>(&acme(&["ACME5Y"]), &s2, Level::Mid, &vec![MarketIndex::SOFR]);
    assert!(matches!(r, Err(QSError::InvalidValue(id)) if id == "ACME5Y"));
}

#[test]
fn empty_and_duplicate_curves_are_rejected() {
    let s = store(&[("Cds_ACME_USD_1Y", 0.008), ("Cds_ACME_USD_12M", 0.009)]);
    let r = CreditCurveBootstrapper::curve_pillars::<f64, _>(&acme(&[]), &s, Level::Mid, &vec![MarketIndex::SOFR]);
    assert!(matches!(r, Err(QSError::EmptyCurve(MarketIndex::Credit(n))) if n == "ACME"));
    let r = CreditCurveBootstrapper::curve_pillars::<f64, _>(
        &acme(&["Cds_ACME_USD_1Y", "Cds_ACME_USD_12M"]),
        &s,
        Level::Mid,
        &vec![MarketIndex::SOFR],
    );
    assert!(matches!(r, Err(QSError::DuplicatePillarMaturity(_))));
}

#[test]
fn later_configuration_of_an_entity_wins() {
    let s = store(&[("Cds_ACME_USD_1Y", 0.008), ("Cds_ACME_USD_5Y", 0.012)]);
    let b = CreditCurveBootstrapper::new(vec![acme(&["Cds_ACME_USD_1Y"]), acme(&["Cds_ACME_USD_5Y"])]);
    let curves = b.bootstrap(&s, Level::Mid, &vec![MarketIndex::SOFR]).unwrap();
    assert_eq!(curves.len(), 1);
    assert_eq!(curves[0].configuration, 1);
    assert_eq!(curves[0].pillars[0].2, "Cds_ACME_USD_5Y");
}
