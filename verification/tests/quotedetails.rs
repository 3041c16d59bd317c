use quantsupport::currencies::Currency;
use quantsupport::errors::QSError;
use quantsupport::indices::MarketIndex;
use quantsupport::quotes::quote::{parse_fx_pair, OptionStrategy, QuoteInstrument};
use quantsupport::quotes::quotedetails::QuoteDetails;
use quantsupport::time::{Frequency, Period, TimeUnit};
use quantsupport::volatility::{Strike, StrikeKind, VolatilityType};

fn strike_is(strike: Option<&Strike>, kind: StrikeKind, value: f64) {
    let s = strike.expect("a strike");
    assert_eq!(s.kind, kind);
    let v: f64 = match &s.value {
        Some(t) => t.parse().unwrap(),
        None => 0.0,
    };
    assert!((v - value).abs() < 1e-12);
}

#[test]
fn parse_ois_identifier() {
    let det: QuoteDetails = "OIS_USD_SOFR_1Y".parse().unwrap();
    assert_eq!(det.identifier(), "OIS_USD_SOFR_1Y");
    assert_eq!(*det.instrument(), QuoteInstrument::OIS);
    assert_eq!(det.currency(), Some(Currency::USD));
}

#[test]
fn parse_deposit_identifier() {
    let det: QuoteDetails = "FixedRateDeposit_USD_SOFR_6M".parse().unwrap();
    assert_eq!(*det.instrument(), QuoteInstrument::FixedRateDeposit);
}

#[test]
fn parse_basis_swap_identifier() {
    let det: QuoteDetails = "BasisSwap_USD_SOFR_TermSOFR3m_1Y".parse().unwrap();
    assert_eq!(*det.instrument(), QuoteInstrument::BasisSwap);
    assert!(det.secondary_market_index().is_some());
}

#[test]
fn parse_future_identifier() {
    let det: QuoteDetails = "Future_USD_SOFR_H6".parse().unwrap();
    assert_eq!(*det.instrument(), QuoteInstrument::Future);
    assert_eq!(det.contract_code(), Some("H6"));
}

#[test]
fn parse_convexity_adjustment_identifier() {
    let det: QuoteDetails = "ConvexityAdjustment_USD_SOFR_M6".parse().unwrap();
    assert_eq!(*det.instrument(), QuoteInstrument::ConvexityAdjustment);
}

#[test]
fn parse_cap_floor_identifier() {
    let det: QuoteDetails = "CapFloor_USD_SOFR_1Y_Absolute_Black".parse().unwrap();
    assert_eq!(*det.instrument(), QuoteInstrument::CapFloor);
    strike_is(det.strike(), StrikeKind::Absolute, 0.0);

    let det2: QuoteDetails = "CapFloor_USD_SOFR_1Y_Absolute_0.03_Black".parse().unwrap();
    strike_is(det2.strike(), StrikeKind::Absolute, 0.03);
}

#[test]
fn parse_caplet_floorlet_identifier() {
    let det: QuoteDetails = "CapletFloorlet_USD_TermSOFR3m_3M_3M_Absolute_0.010_Straddle_Black"
        .parse()
        .unwrap();
    assert_eq!(*det.instrument(), QuoteInstrument::CapletFloorlet);
    strike_is(det.strike(), StrikeKind::Absolute, 0.010);
}

#[test]
fn parse_swaption_identifier() {
    let det: QuoteDetails = "Swaption_USD_SOFR_3M_2Y_Absolute_Black".parse().unwrap();
    assert_eq!(*det.instrument(), QuoteInstrument::EuropeanSwaption);
}

#[test]
fn parse_outright_forward_identifier() {
    let det: QuoteDetails = "FxOutrightForward_EURUSD_1M".parse().unwrap();
    assert_eq!(*det.instrument(), QuoteInstrument::FxOutrightForward);
    assert_eq!(det.pay_currency(), Some(Currency::EUR));
    assert_eq!(det.receive_currency(), Some(Currency::USD));
}

#[test]
fn parse_forward_points_identifier() {
    let det: QuoteDetails = "FxForwardPoints_EURUSD_1Y".parse().unwrap();
    assert_eq!(*det.instrument(), QuoteInstrument::FxForwardPoints);
}

#[test]
fn parse_cross_currency_swap_identifier() {
    let det: QuoteDetails = "FixFloatCrossCurrencySwap_USD_ICP_CLP_1Y".parse().unwrap();
    assert_eq!(*det.instrument(), QuoteInstrument::FixFloatCrossCurrencySwap);
    assert_eq!(det.pay_currency(), Some(Currency::USD));
    assert_eq!(det.receive_currency(), Some(Currency::CLP));
}

#[test]
fn parse_call_identifier() {
    let det: QuoteDetails = "EquityCall_USD_SPX_1Y_5000".parse().unwrap();
    assert_eq!(*det.instrument(), QuoteInstrument::EquityCall);
    strike_is(det.strike(), StrikeKind::Absolute, 5000.0);
}

#[test]
fn parse_put_identifier() {
    let det: QuoteDetails = "EquityPut_USD_SPX_1Y_4500".parse().unwrap();
    assert_eq!(*det.instrument(), QuoteInstrument::EquityPut);
    strike_is(det.strike(), StrikeKind::Absolute, 4500.0);
}

#[test]
fn parse_fx_call_identifier() {
    let det: QuoteDetails = "FxCall_EURUSD_1Y_1.10".parse().unwrap();
    assert_eq!(*det.instrument(), QuoteInstrument::FxCall);
    assert_eq!(det.pay_currency(), Some(Currency::EUR));
    assert_eq!(det.receive_currency(), Some(Currency::USD));
}

#[test]
fn parse_with_custom_separator() {
    let det = QuoteDetails::parse("EquityCall|USD|SPX|1Y|5000", '|').unwrap();
    assert_eq!(*det.instrument(), QuoteInstrument::EquityCall);
    assert_eq!(det.currency(), Some(Currency::USD));
    strike_is(det.strike(), StrikeKind::Absolute, 5000.0);
}

#[test]
fn parse_ois_with_frequencies() {
    let det: QuoteDetails = "OIS_USD_SOFR_1Y_Semiannual_Quarterly".parse().unwrap();
    assert_eq!(*det.instrument(), QuoteInstrument::OIS);
    assert_eq!(det.pay_leg_frequency(), Some(Frequency::Semiannual));
    assert_eq!(det.receive_leg_frequency(), Some(Frequency::Quarterly));
}

#[test]
fn parse_ois_with_single_frequency() {
    let det: QuoteDetails = "OIS_USD_SOFR_1Y_Annual".parse().unwrap();
    assert_eq!(det.pay_leg_frequency(), Some(Frequency::Annual));
    assert_eq!(det.receive_leg_frequency(), None);
}

#[test]
fn parse_ois_without_frequency_still_works() {
    let det: QuoteDetails = "OIS_USD_SOFR_1Y".parse().unwrap();
    assert_eq!(det.pay_leg_frequency(), None);
    assert_eq!(det.receive_leg_frequency(), None);
}

#[test]
fn parse_basis_swap_with_frequencies() {
    let det: QuoteDetails = "BasisSwap_USD_SOFR_TermSOFR3m_1Y_Quarterly_Monthly".parse().unwrap();
    assert_eq!(*det.instrument(), QuoteInstrument::BasisSwap);
    assert_eq!(det.pay_leg_frequency(), Some(Frequency::Quarterly));
    assert_eq!(det.receive_leg_frequency(), Some(Frequency::Monthly));
}

#[test]
fn parse_fix_float_xccy_with_frequencies() {
    let det: QuoteDetails = "FixFloatCrossCurrencySwap_USD_ICP_CLP_1Y_Semiannual_Quarterly"
        .parse()
        .unwrap();
    assert_eq!(*det.instrument(), QuoteInstrument::FixFloatCrossCurrencySwap);
    assert_eq!(det.pay_leg_frequency(), Some(Frequency::Semiannual));
    assert_eq!(det.receive_leg_frequency(), Some(Frequency::Quarterly));
}

#[test]
fn parse_float_float_xccy_with_frequencies() {
    let det: QuoteDetails = "FloatFloatCrossCurrencySwap_CLP_ICP_SOFR_USD_1Y_Quarterly_Quarterly"
        .parse()
        .unwrap();
    assert_eq!(*det.instrument(), QuoteInstrument::FloatFloatCrossCurrencySwap);
    assert_eq!(det.pay_leg_frequency(), Some(Frequency::Quarterly));
    assert_eq!(det.receive_leg_frequency(), Some(Frequency::Quarterly));
}

#[test]
fn parse_swaption_with_frequencies() {
    let det: QuoteDetails = "Swaption_USD_SOFR_3M_2Y_Semiannual_Semiannual_Absolute_0.04_Black"
        .parse()
        .unwrap();
    assert_eq!(*det.instrument(), QuoteInstrument::EuropeanSwaption);
    assert_eq!(det.pay_leg_frequency(), Some(Frequency::Semiannual));
    assert_eq!(det.receive_leg_frequency(), Some(Frequency::Semiannual));
    strike_is(det.strike(), StrikeKind::Absolute, 0.04);
}

#[test]
fn parse_swaption_without_frequencies_still_works() {
    let det: QuoteDetails = "Swaption_USD_SOFR_3M_2Y_Absolute_Black".parse().unwrap();
    assert_eq!(det.pay_leg_frequency(), None);
    assert_eq!(det.receive_leg_frequency(), None);
}

#[test]
fn parse_cap_floor_with_frequency() {
    let det: QuoteDetails = "CapFloor_USD_SOFR_1Y_Quarterly_Absolute_0.03_Black".parse().unwrap();
    assert_eq!(*det.instrument(), QuoteInstrument::CapFloor);
    assert_eq!(det.pay_leg_frequency(), Some(Frequency::Quarterly));
    strike_is(det.strike(), StrikeKind::Absolute, 0.03);
}

#[test]
fn parse_cap_floor_without_frequency_still_works() {
    let det: QuoteDetails = "CapFloor_USD_SOFR_1Y_Absolute_Black".parse().unwrap();
    assert_eq!(det.pay_leg_frequency(), None);
}

// Own tests: the remaining terms of each grammar and its errors.

#[test]
fn ois_terms() {
    let det: QuoteDetails = "OIS_USD_SOFR_1Y".parse().unwrap();
    assert!(matches!(det.market_index(), Some(MarketIndex::SOFR)));
    let t = det.tenor().unwrap();
    assert_eq!(t.length(), 1);
    assert_eq!(t.units(), TimeUnit::Years);
}

#[test]
fn cds_names_a_credit_index() {
    let det: QuoteDetails = "Cds_ACME_USD_5Y".parse().unwrap();
    assert_eq!(*det.instrument(), QuoteInstrument::Cds);
    match det.market_index() {
        Some(MarketIndex::Credit(name)) => assert_eq!(name, "ACME"),
        _ => panic!("credit index expected"),
    }
    assert_eq!(det.currency(), Some(Currency::USD));
}

#[test]
fn caplet_floorlet_terms() {
    let det: QuoteDetails = "CapletFloorlet_USD_TermSOFR3m_3M_6M_Atm_Straddle_Normal"
        .parse()
        .unwrap();
    strike_is(det.strike(), StrikeKind::Atm, 0.0);
    assert!(matches!(det.strategy(), Some(OptionStrategy::Straddle)));
    assert_eq!(det.vol_type(), Some(&VolatilityType::Normal));
    assert_eq!(det.index_tenor(), Some(Period::new(3, TimeUnit::Months)));
    assert_eq!(det.option_expiry(), Some(Period::new(6, TimeUnit::Months)));
}

#[test]
fn unknown_instrument_is_rejected() {
    let r = "Bond_USD_SOFR_1Y".parse::<QuoteDetails>();
    assert!(matches!(r, Err(QSError::InvalidValue(s)) if s == "Bond_USD_SOFR_1Y"));
}

#[test]
fn short_identifiers_are_rejected() {
    assert!("OIS_USD".parse::<QuoteDetails>().is_err());
    assert!("OIS_USD_SOFR".parse::<QuoteDetails>().is_err());
    assert!("FxCall_EURUSD_1Y".parse::<QuoteDetails>().is_err());
}

#[test]
fn bad_terms_are_rejected() {
    assert!("OIS_XXX_SOFR_1Y".parse::<QuoteDetails>().is_err());
    assert!("OIS_USD_SOFR_1Q".parse::<QuoteDetails>().is_err());
    assert!("EquityCall_USD_SPX_1Y_abc".parse::<QuoteDetails>().is_err());
    assert!("CapFloor_USD_SOFR_1Y_Absolute_Lognormal".parse::<QuoteDetails>().is_err());
    assert!("FxForwardPoints_EURUS_1Y".parse::<QuoteDetails>().is_err());
}

#[test]
fn swaption_without_strike_segment_is_rejected() {
    assert!("Swaption_USD_SOFR_3M_2Y_Annual_Annual".parse::<QuoteDetails>().is_err());
}

#[test]
fn fx_pair_splits_codes() {
    assert_eq!(parse_fx_pair("EURUSD").unwrap(), (Currency::EUR, Currency::USD));
    assert!(parse_fx_pair("EURUS").is_err());
    assert!(parse_fx_pair("EURXYZ").is_err());
}

#[test]
fn period_and_frequency_texts() {
    assert_eq!("18M".parse::<Period>().unwrap(), Period::new(18, TimeUnit::Months));
    assert_eq!("2w".parse::<Period>().unwrap(), Period::new(2, TimeUnit::Weeks));
    assert!("M".parse::<Period>().is_err());
    assert!("99999999999Y".parse::<Period>().is_err());
    assert_eq!("Monthly".parse::<Frequency>().unwrap(), Frequency::Monthly);
    assert!("monthly".parse::<Frequency>().is_err());
}

#[test]
fn builders_set_terms() {
    let det = QuoteDetails::new("custom".to_string(), QuoteInstrument::OIS)
        .with_currency(Currency::EUR)
        .with_market_index(MarketIndex::ESTR)
        .with_contract_code("Z5".to_string());
    assert_eq!(det.currency(), Some(Currency::EUR));
    assert!(matches!(det.market_index(), Some(MarketIndex::ESTR)));
    assert_eq!(det.contract_code(), Some("Z5"));
    assert_eq!(det.tenor(), None);
}
