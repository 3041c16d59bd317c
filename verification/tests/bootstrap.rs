use quantsupport::currencies::Currency;
use quantsupport::errors::QSError;
use quantsupport::indices::MarketIndex;
use quantsupport::math::Interpolator;
use quantsupport::quotes::fxstore::FxStore;
use quantsupport::quotes::quote::{Level, Quote, QuoteLevels};
use quantsupport::quotes::quotestore::QuoteStore;
use quantsupport::quotes::quotedetails::QuoteDetails;
use quantsupport::rates::bootstrapping::bootstrapdiscountpolicy::BootstrapDiscountPolicy;
use quantsupport::rates::bootstrapping::curveconfiguration::CurveConfiguration;
use quantsupport::rates::bootstrapping::multicurvebootstrapper::MultiCurveBootstrapper;
use quantsupport::time::{Date, DayCounter};

/// Adds a mid quote to the store.
fn add(store: &mut QuoteStore<f64>, id: &str, rate: f64) {
    let det: QuoteDetails = id.parse().unwrap();
    store.add_quote(Quote::new(det, QuoteLevels::with_mid(rate)));
}

fn rd() -> Date {
    Date::new(2024, 6, 1)
}

fn default_policy() -> BootstrapDiscountPolicy {
    BootstrapDiscountPolicy::new(MarketIndex::SOFR, Currency::USD)
}

fn spec(index: MarketIndex, ids: &[&str]) -> CurveConfiguration {
    CurveConfiguration::new(
        index,
        DayCounter::Actual360,
        Interpolator::LogLinear,
        true,
        ids.iter().map(|s| s.to_string()).collect(),
    )
}

#[test]
fn bootstrap_missing_quote_errors() {
    let selector: QuoteStore<f64> = QuoteStore::new(rd());
    // Not adding any quotes to the selector.
    let spec = CurveConfiguration::new(
        MarketIndex::SOFR,
        DayCounter::Actual360,
        Interpolator::LogLinear,
        true,
        vec!["OIS_USD_SOFR_1Y".into()],
    );
    let bootstrapper: MultiCurveBootstrapper<f64> =
        MultiCurveBootstrapper::new(vec![spec], default_policy());
    let result = bootstrapper.bootstrap(&selector, Level::Mid);
    assert!(result.is_err());
}

#[test]
fn bootstrap_fx_forward_cross_currency_missing_fx() {
    let mut selector = QuoteStore::new(rd());
    add(&mut selector, "FixedRateDeposit_USD_SOFR_6M", 0.05);
    add(&mut selector, "OIS_USD_SOFR_1Y", 0.048);
    add(&mut selector, "FxForwardPoints_EURUSD_6M", 0.005);
    add(&mut selector, "FxForwardPoints_EURUSD_1Y", 0.008);

    let sofr_spec = CurveConfiguration::new(
        MarketIndex::SOFR,
        DayCounter::Actual360,
        Interpolator::LogLinear,
        true,
        vec!["FixedRateDeposit_USD_SOFR_6M".into(), "OIS_USD_SOFR_1Y".into()],
    );
    let collateral_spec = CurveConfiguration::new(
        MarketIndex::Collateral(Currency::EUR, Currency::USD),
        DayCounter::Actual360,
        Interpolator::LogLinear,
        true,
        vec!["FxForwardPoints_EURUSD_6M".into(), "FxForwardPoints_EURUSD_1Y".into()],
    );
    let bootstrapper: MultiCurveBootstrapper<f64> =
        MultiCurveBootstrapper::new(vec![sofr_spec, collateral_spec], default_policy());
    assert!(bootstrapper.bootstrap(&selector, Level::Mid).is_err());
}

// Own tests.

#[test]
fn missing_quote_names_the_identifier() {
    let selector: QuoteStore<f64> = QuoteStore::new(rd());
    let b: MultiCurveBootstrapper<f64> =
        MultiCurveBootstrapper::new(vec![spec(MarketIndex::SOFR, &["OIS_USD_SOFR_1Y"])], default_policy());
    match b.bootstrap(&selector, Level::Mid) {
        Err(QSError::QuoteNotFound(id)) => assert_eq!(id, "OIS_USD_SOFR_1Y"),
        _ => panic!("QuoteNotFound expected"),
    }
}

#[test]
fn missing_level_is_reported() {
    let mut selector = QuoteStore::new(rd());
    add(&mut selector, "OIS_USD_SOFR_1Y", 0.048);
    let b: MultiCurveBootstrapper<f64> =
        MultiCurveBootstrapper::new(vec![spec(MarketIndex::SOFR, &["OIS_USD_SOFR_1Y"])], default_policy());
    assert!(matches!(b.bootstrap(&selector, Level::Bid), Err(QSError::LevelNotAvailable)));
}

#[test]
fn missing_fx_spot_names_the_quote() {
    let mut selector = QuoteStore::new(rd());
    add(&mut selector, "OIS_USD_SOFR_1Y", 0.048);
    add(&mut selector, "FxForwardPoints_EURUSD_6M", 0.005);
    let b: MultiCurveBootstrapper<f64> = MultiCurveBootstrapper::new(
        vec![
            spec(MarketIndex::SOFR, &["OIS_USD_SOFR_1Y"]),
            spec(MarketIndex::Collateral(Currency::EUR, Currency::USD), &["FxForwardPoints_EURUSD_6M"]),
        ],
        default_policy(),
    );
    match b.bootstrap(&selector, Level::Mid) {
        Err(QSError::MissingFxSpot(id)) => assert_eq!(id, "FxForwardPoints_EURUSD_6M"),
        _ => panic!("MissingFxSpot expected"),
    }
}

#[test]
fn discount_curve_comes_first_and_fx_is_attached() {
    let mut selector = QuoteStore::new(rd());
    add(&mut selector, "FixedRateDeposit_USD_SOFR_6M", 0.05);
    add(&mut selector, "OIS_USD_SOFR_1Y", 0.048);
    add(&mut selector, "FxForwardPoints_EURUSD_6M", 0.005);
    add(&mut selector, "BasisSwap_USD_SOFR_TermSOFR3m_1Y", 0.001);

    let mut fx = FxStore::new();
    fx.add_fx_rate(Currency::USD, Currency::EUR, 1.08);
    let b = MultiCurveBootstrapper::new(
        vec![
            spec(MarketIndex::Collateral(Currency::EUR, Currency::USD), &["FxForwardPoints_EURUSD_6M"]),
            spec(MarketIndex::TermSOFR3m, &["BasisSwap_USD_SOFR_TermSOFR3m_1Y"]),
            spec(MarketIndex::SOFR, &["FixedRateDeposit_USD_SOFR_6M", "OIS_USD_SOFR_1Y"]),
        ],
        default_policy(),
    )
    .with_fx_store(fx);
    let curves = b.bootstrap(&selector, Level::Mid).unwrap();
    assert_eq!(curves.len(), 3);
    assert!(matches!(curves[0].market_index, MarketIndex::SOFR));
    assert_eq!(curves[0].quote_values, vec![0.05, 0.048]);
    assert!(curves[0].fx_spot.is_none());
    assert!(matches!(curves[1].market_index, MarketIndex::Collateral(Currency::EUR, Currency::USD)));
    let legs = curves[1].fx_spot.as_ref().unwrap();
    assert_eq!(legs.len(), 1);
    assert_eq!(legs[0].from, Currency::USD);
    assert_eq!(legs[0].to, Currency::EUR);
    assert!(matches!(curves[2].market_index, MarketIndex::TermSOFR3m));
    assert_eq!(curves[2].quote_ids, vec!["BasisSwap_USD_SOFR_TermSOFR3m_1Y".to_string()]);
}

#[test]
fn later_configuration_replaces_earlier() {
    let mut selector = QuoteStore::new(rd());
    add(&mut selector, "OIS_USD_SOFR_1Y", 0.048);
    add(&mut selector, "OIS_USD_SOFR_2Y", 0.045);
    let b: MultiCurveBootstrapper<f64> = MultiCurveBootstrapper::new(
        vec![spec(MarketIndex::SOFR, &["OIS_USD_SOFR_1Y"]), spec(MarketIndex::SOFR, &["OIS_USD_SOFR_2Y"])],
        default_policy(),
    );
    let curves = b.bootstrap(&selector, Level::Mid).unwrap();
    assert_eq!(curves.len(), 1);
    assert_eq!(curves[0].quote_values, vec![0.045]);
}

#[test]
fn missing_discount_curve_is_reported() {
    let mut selector = QuoteStore::new(rd());
    add(&mut selector, "BasisSwap_USD_SOFR_TermSOFR3m_1Y", 0.001);
    let b: MultiCurveBootstrapper<f64> = MultiCurveBootstrapper::new(
        vec![spec(MarketIndex::TermSOFR3m, &["BasisSwap_USD_SOFR_TermSOFR3m_1Y"])],
        default_policy(),
    );
    assert!(matches!(b.bootstrap(&selector, Level::Mid), Err(QSError::MissingCurve(MarketIndex::SOFR))));
}

#[test]
fn no_configuration_gives_no_curve() {
    let selector: QuoteStore<f64> = QuoteStore::new(rd());
    let b: MultiCurveBootstrapper<f64> = MultiCurveBootstrapper::new(vec![], default_policy());
    assert!(b.bootstrap(&selector, Level::Mid).unwrap().is_empty());
}

#[test]
fn curves_are_solved_after_their_dependencies() {
    let mut selector = QuoteStore::new(rd());
    add(&mut selector, "OIS_USD_SOFR_1Y", 0.048);
    add(&mut selector, "BasisSwap_USD_SOFR_TermSOFR3m_1Y", 0.001);
    add(&mut selector, "BasisSwap_USD_TermSOFR3m_ESTR_1Y", 0.002);
    let b: MultiCurveBootstrapper<f64> = MultiCurveBootstrapper::new(
        vec![
            spec(MarketIndex::ESTR, &["BasisSwap_USD_TermSOFR3m_ESTR_1Y"]),
            spec(MarketIndex::TermSOFR3m, &["BasisSwap_USD_SOFR_TermSOFR3m_1Y"]),
            spec(MarketIndex::SOFR, &["OIS_USD_SOFR_1Y"]),
        ],
        default_policy(),
    );
    let curves = b.bootstrap(&selector, Level::Mid).unwrap();
    let order: Vec<String> = curves.iter().map(|c| format!("{:?}", c.market_index)).collect();
    assert_eq!(order, vec!["SOFR", "TermSOFR3m", "ESTR"]);
}

#[test]
fn dependency_cycle_is_reported() {
    let mut selector = QuoteStore::new(rd());
    add(&mut selector, "BasisSwap_USD_SOFR_TermSOFR3m_1Y", 0.001);
    add(&mut selector, "BasisSwap_USD_TermSOFR3m_SOFR_2Y", 0.001);
    let b: MultiCurveBootstrapper<f64> = MultiCurveBootstrapper::new(
        vec![
            spec(MarketIndex::SOFR, &["BasisSwap_USD_TermSOFR3m_SOFR_2Y"]),
            spec(MarketIndex::TermSOFR3m, &["BasisSwap_USD_SOFR_TermSOFR3m_1Y"]),
        ],
        default_policy(),
    );
    assert!(matches!(b.bootstrap(&selector, Level::Mid), Err(QSError::DependencyCycle)));
}

#[test]
fn a_referenced_index_must_be_configured() {
    let mut selector = QuoteStore::new(rd());
    add(&mut selector, "OIS_USD_SOFR_1Y", 0.048);
    add(&mut selector, "BasisSwap_USD_TermSOFR3m_ESTR_1Y", 0.002);
    let b: MultiCurveBootstrapper<f64> = MultiCurveBootstrapper::new(
        vec![spec(MarketIndex::SOFR, &["OIS_USD_SOFR_1Y"]), spec(MarketIndex::ESTR, &["BasisSwap_USD_TermSOFR3m_ESTR_1Y"])],
        default_policy(),
    );
    assert!(matches!(b.bootstrap(&selector, Level::Mid), Err(QSError::MissingCurve(MarketIndex::TermSOFR3m))));
}

#[test]
fn cross_currency_quotes_need_their_fx_pair() {
    let mut selector = QuoteStore::new(rd());
    add(&mut selector, "OIS_USD_SOFR_1Y", 0.048);
    add(&mut selector, "FixFloatCrossCurrencySwap_CLP_ICP_USD_2Y", 0.05);
    let configs = || {
        vec![spec(MarketIndex::SOFR, &["OIS_USD_SOFR_1Y"]), spec(MarketIndex::ICP, &["FixFloatCrossCurrencySwap_CLP_ICP_USD_2Y"])]
    };
    let without: MultiCurveBootstrapper<f64> = MultiCurveBootstrapper::new(configs(), default_policy());
    match without.bootstrap(&selector, Level::Mid) {
        Err(QSError::MissingFxSpot(id)) => assert_eq!(id, "FixFloatCrossCurrencySwap_CLP_ICP_USD_2Y"),
        _ => panic!("MissingFxSpot expected"),
    }
    let mut fx = FxStore::new();
    fx.add_fx_rate(Currency::USD, Currency::CLP, 950.0);
    let with = MultiCurveBootstrapper::new(configs(), default_policy()).with_fx_store(fx);
    let curves = with.bootstrap(&selector, Level::Mid).unwrap();
    assert_eq!(curves.len(), 2);
    assert!(curves[1].fx_spot.is_none());
}

#[test]
fn new_bootstraps_as_an_empty_fx_store() {
    let mut selector = QuoteStore::new(rd());
    add(&mut selector, "OIS_USD_SOFR_1Y", 0.048);
    add(&mut selector, "FxForwardPoints_EURUSD_6M", 0.005);
    let configs = || {
        vec![
            spec(MarketIndex::SOFR, &["OIS_USD_SOFR_1Y"]),
            spec(MarketIndex::Collateral(Currency::EUR, Currency::USD), &["FxForwardPoints_EURUSD_6M"]),
        ]
    };
    let plain: MultiCurveBootstrapper<f64> = MultiCurveBootstrapper::new(configs(), default_policy());
    let empty: MultiCurveBootstrapper<f64> =
        MultiCurveBootstrapper::new(configs(), default_policy()).with_fx_store(FxStore::new());
    let a = plain.bootstrap(&selector, Level::Mid);
    let b = empty.bootstrap(&selector, Level::Mid);
    match (a, b) {
        (Err(QSError::MissingFxSpot(x)), Err(QSError::MissingFxSpot(y))) => {
            assert_eq!(x, "FxForwardPoints_EURUSD_6M");
            assert_eq!(x, y);
        }
        _ => panic!("both should miss the FX spot"),
    }
}

#[test]
fn second_fx_store_replaces_the_first() {
    let mut selector = QuoteStore::new(rd());
    add(&mut selector, "OIS_USD_SOFR_1Y", 0.048);
    add(&mut selector, "FxForwardPoints_EURUSD_6M", 0.005);
    let configs = || {
        vec![
            spec(MarketIndex::SOFR, &["OIS_USD_SOFR_1Y"]),
            spec(MarketIndex::Collateral(Currency::EUR, Currency::USD), &["FxForwardPoints_EURUSD_6M"]),
        ]
    };
    let mut first = FxStore::new();
    first.add_fx_rate(Currency::USD, Currency::EUR, 0.9);
    let second = || {
        let mut s = FxStore::new();
        s.add_fx_rate(Currency::USD, Currency::GBP, 0.8);
        s.add_fx_rate(Currency::GBP, Currency::EUR, 1.1);
        s
    };
    let twice = MultiCurveBootstrapper::new(configs(), default_policy()).with_fx_store(first).with_fx_store(second());
    let once = MultiCurveBootstrapper::new(configs(), default_policy()).with_fx_store(second());
    let a = twice.bootstrap(&selector, Level::Mid).unwrap();
    let b = once.bootstrap(&selector, Level::Mid).unwrap();
    assert_eq!(a.len(), 2);
    assert_eq!(b.len(), 2);
    let la = a[1].fx_spot.as_ref().unwrap();
    let lb = b[1].fx_spot.as_ref().unwrap();
    assert_eq!(la.len(), 2);
    assert_eq!(lb.len(), 2);
    assert_eq!(la[0].from, Currency::USD);
    assert_eq!(la[0].to, Currency::GBP);
    assert_eq!(la[1].to, Currency::EUR);
    assert_eq!(lb[0].to, Currency::GBP);
}

#[test]
fn a_direct_fx_rate_is_preferred() {
    let mut selector = QuoteStore::new(rd());
    add(&mut selector, "OIS_USD_SOFR_1Y", 0.048);
    add(&mut selector, "FxForwardPoints_EURUSD_6M", 0.005);
    let mut fx = FxStore::new();
    fx.add_fx_rate(Currency::USD, Currency::GBP, 0.8);
    fx.add_fx_rate(Currency::GBP, Currency::EUR, 1.1);
    fx.add_fx_rate(Currency::USD, Currency::EUR, 0.9);
    let b = MultiCurveBootstrapper::new(
        vec![
            spec(MarketIndex::SOFR, &["OIS_USD_SOFR_1Y"]),
            spec(MarketIndex::Collateral(Currency::EUR, Currency::USD), &["FxForwardPoints_EURUSD_6M"]),
        ],
        default_policy(),
    )
    .with_fx_store(fx);
    let curves = b.bootstrap(&selector, Level::Mid).unwrap();
    let legs = curves[1].fx_spot.as_ref().unwrap();
    assert_eq!(legs.len(), 1);
    assert_eq!(legs[0].from, Currency::USD);
    assert_eq!(legs[0].to, Currency::EUR);
    assert_eq!(legs[0].rate, 0.9);
}
