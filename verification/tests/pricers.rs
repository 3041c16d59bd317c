use quantsupport::currencies::Currency;
use quantsupport::errors::QSError;
use quantsupport::indices::MarketIndex;
use quantsupport::pricers::cashflows::discountedcashflowpricer::{
    first_cashflow_issue, fixing_requests, CashflowIssue, CashflowKind, DiscountedCashflowPricer,
    FloatingCoupon, LegSummary,
};
use quantsupport::time::Date;
use quantsupport::pricers::credit::cdspricer::CdsPricer;
use quantsupport::pricers::equity::blackmceuropeanoptionpricer::BlackMCEuropeanOptionPricer;
use quantsupport::pricers::fx::fxforwardpricer::FxForwardPricer;
use quantsupport::pricers::rates::closedformblackcapletpricer::ClosedFormBlackCapletPricer;
use quantsupport::pricers::rates::ratefuturespricer::RateFuturesPricer;
use quantsupport::pricing::collateral::{AssetClass, DiscountPolicy, Discountable};
use quantsupport::pricing::marketdata::{ConstructedElementRequest, FxRequest, MarketDataRequest};
use vstd::seq::Seq;

/// Maps EUR and USD to their collateral curves in USD.
struct UsdCsaPolicy;

impl DiscountPolicy for UsdCsaPolicy {
    fn spec_accept(&self, _asset_class: AssetClass, _currency: Currency) -> Result<MarketIndex, QSError> {
        unreachable!()
    }

    fn spec_discount_indices(&self) -> Seq<MarketIndex> {
        unreachable!()
    }

    fn accept<D: Discountable>(&self, target: &D) -> Result<MarketIndex, QSError> {
        match target.currency() {
            Currency::USD => Ok(MarketIndex::SOFR),
            Currency::EUR => Ok(MarketIndex::Collateral(Currency::EUR, Currency::USD)),
            other => Err(QSError::InvalidValue(format!("{:?}", other))),
        }
    }

    fn discount_indices(&self) -> Vec<MarketIndex> {
        vec![MarketIndex::SOFR, MarketIndex::Collateral(Currency::EUR, Currency::USD)]
    }
}

struct Equity(Currency);

impl Discountable for Equity {
    fn spec_asset_class(&self) -> AssetClass {
        unreachable!()
    }
    fn spec_currency(&self) -> Currency {
        unreachable!()
    }
    fn asset_class(&self) -> AssetClass {
        AssetClass::Equity
    }
    fn currency(&self) -> Currency {
        self.0
    }
}

fn kinds(req: &MarketDataRequest) -> Vec<String> {
    req.constructed_elements()
        .iter()
        .map(|e| match e {
            ConstructedElementRequest::DiscountCurve { market_index } => format!("DC {:?}", market_index),
            ConstructedElementRequest::CreditCurve { market_index } => format!("CC {:?}", market_index),
            ConstructedElementRequest::VolatilitySurface { market_index } => format!("VS {:?}", market_index),
            ConstructedElementRequest::Simulation { market_index } => format!("SIM {:?}", market_index),
        })
        .collect()
}

#[test]
fn futures_request_their_curve() {
    let req = RateFuturesPricer::new().market_data_request(&MarketIndex::SOFR).unwrap();
    assert_eq!(kinds(&req), vec!["DC SOFR"]);
    assert!(req.fx_requests().is_empty());
}

#[test]
fn caplet_request_adds_policy_curves_once() {
    let pricer: ClosedFormBlackCapletPricer<UsdCsaPolicy> = ClosedFormBlackCapletPricer::new();
    let req = pricer.market_data_request(&MarketIndex::SOFR).unwrap();
    assert_eq!(kinds(&req), vec!["DC SOFR", "VS SOFR"]);

    let mut pricer = ClosedFormBlackCapletPricer::new();
    pricer.set_discount_policy(UsdCsaPolicy);
    let req = pricer.market_data_request(&MarketIndex::SOFR).unwrap();
    assert_eq!(kinds(&req), vec!["DC SOFR", "VS SOFR", "DC Collateral(EUR, USD)"]);
}

#[test]
fn cds_request_names_discount_and_credit_curves() {
    let mut pricer = CdsPricer::new();
    pricer.set_discount_policy(UsdCsaPolicy);
    let credit = MarketIndex::Credit("ACME".to_string());
    let req = pricer.market_data_request(&MarketIndex::ESTR, &credit).unwrap();
    assert_eq!(
        kinds(&req),
        vec!["DC ESTR", "CC Credit(\"ACME\")", "DC SOFR", "DC Collateral(EUR, USD)"]
    );
}

#[test]
fn cds_discount_index_follows_the_policy() {
    let plain: CdsPricer<UsdCsaPolicy> = CdsPricer::new();
    let own = MarketIndex::ESTR;
    assert!(matches!(plain.resolve_discount_index(&Equity(Currency::EUR), &own), Ok(MarketIndex::ESTR)));
    let mut with_policy = CdsPricer::new();
    with_policy.set_discount_policy(UsdCsaPolicy);
    assert!(matches!(with_policy.resolve_discount_index(&Equity(Currency::USD), &own), Ok(MarketIndex::SOFR)));
}

#[test]
fn option_request_adds_collateral_curve_when_different() {
    let index = MarketIndex::Equity("SPX".to_string());
    let plain: BlackMCEuropeanOptionPricer<UsdCsaPolicy> = BlackMCEuropeanOptionPricer::new();
    let req = plain.market_data_request(&Equity(Currency::USD), &index).unwrap();
    assert_eq!(kinds(&req), vec!["SIM Equity(\"SPX\")", "DC Equity(\"SPX\")"]);

    let mut pricer = BlackMCEuropeanOptionPricer::new();
    pricer.set_discount_policy(UsdCsaPolicy);
    let req = pricer.market_data_request(&Equity(Currency::USD), &index).unwrap();
    assert_eq!(kinds(&req), vec!["SIM Equity(\"SPX\")", "DC Equity(\"SPX\")", "DC SOFR"]);
    assert!(pricer.market_data_request(&Equity(Currency::JPY), &index).is_none());
}

#[test]
fn fx_forward_request_needs_a_policy() {
    let plain: FxForwardPricer<UsdCsaPolicy> = FxForwardPricer::new();
    assert!(plain.market_data_request(Currency::EUR, Currency::USD).is_none());

    let mut pricer = FxForwardPricer::new();
    pricer.set_discount_policy(UsdCsaPolicy);
    let req = pricer.market_data_request(Currency::EUR, Currency::USD).unwrap();
    assert_eq!(kinds(&req), vec!["DC Collateral(EUR, USD)", "DC SOFR"]);
    assert_eq!(req.fx_requests(), &vec![FxRequest::pair(Currency::EUR, Currency::USD)]);

    let req = pricer.market_data_request(Currency::USD, Currency::JPY).unwrap();
    assert_eq!(kinds(&req), vec!["DC SOFR"]);
}

#[test]
fn cashflow_request_deduplicates_and_converts_collateral() {
    let legs = vec![
        LegSummary { forward_index: Some(MarketIndex::SOFR), currency: Currency::USD },
        LegSummary { forward_index: Some(MarketIndex::ESTR), currency: Currency::EUR },
        LegSummary { forward_index: Some(MarketIndex::SOFR), currency: Currency::USD },
        LegSummary { forward_index: None, currency: Currency::EUR },
    ];
    let plain: DiscountedCashflowPricer<UsdCsaPolicy> = DiscountedCashflowPricer::new();
    let req = plain.market_data_request(&legs).unwrap();
    assert_eq!(kinds(&req), vec!["DC SOFR", "DC ESTR"]);
    assert!(req.fx_requests().is_empty());

    let mut pricer = DiscountedCashflowPricer::new();
    pricer.set_discount_policy(UsdCsaPolicy);
    let req = pricer.market_data_request(&legs).unwrap();
    assert_eq!(kinds(&req), vec!["DC SOFR", "DC ESTR", "DC Collateral(EUR, USD)"]);
    assert_eq!(
        req.fx_requests(),
        &vec![FxRequest::pair(Currency::EUR, Currency::USD), FxRequest::pair(Currency::EUR, Currency::USD)]
    );
}

#[test]
fn leg_discount_curve_without_policy() {
    let pricer: DiscountedCashflowPricer<UsdCsaPolicy> = DiscountedCashflowPricer::new();
    let usd = LegSummary { forward_index: Some(MarketIndex::SOFR), currency: Currency::USD };
    let curves = Some(vec![
        (MarketIndex::SOFR, Some(Currency::USD)),
        (MarketIndex::ESTR, Some(Currency::EUR)),
        (MarketIndex::Collateral(Currency::EUR, Currency::USD), None),
    ]);
    let own = Some(MarketIndex::Other("USD-OIS".to_string()));
    assert!(matches!(pricer.leg_discount_index(&usd, true, &own, &curves), Ok(MarketIndex::SOFR)));
    assert!(matches!(
        pricer.leg_discount_index(&usd, false, &own, &curves),
        Ok(MarketIndex::Other(n)) if n == "USD-OIS"
    ));
    assert!(matches!(pricer.leg_discount_index(&usd, false, &None, &None), Ok(MarketIndex::SOFR)));
    let gbp = LegSummary { forward_index: None, currency: Currency::GBP };
    assert!(matches!(
        pricer.leg_discount_index(&gbp, false, &None, &curves),
        Err(QSError::NoDiscountCurve(Currency::GBP))
    ));
    assert!(matches!(
        pricer.leg_discount_index(&gbp, true, &None, &None),
        Err(QSError::MarketDataNotAvailable)
    ));
    let two = Some(vec![
        (MarketIndex::SOFR, Some(Currency::USD)),
        (MarketIndex::TermSOFR3m, Some(Currency::USD)),
    ]);
    assert!(matches!(
        pricer.leg_discount_index(&usd, true, &None, &two),
        Err(QSError::AmbiguousDiscountCurve(Currency::USD))
    ));
}

#[test]
fn leg_discount_curve_with_policy() {
    let mut pricer = DiscountedCashflowPricer::new();
    pricer.set_discount_policy(UsdCsaPolicy);
    let eur = LegSummary { forward_index: Some(MarketIndex::ESTR), currency: Currency::EUR };
    assert!(matches!(
        pricer.leg_discount_index(&eur, true, &None, &None),
        Ok(MarketIndex::Collateral(Currency::EUR, Currency::USD))
    ));
    let gbp = LegSummary { forward_index: None, currency: Currency::GBP };
    assert!(pricer.leg_discount_index(&gbp, false, &None, &None).is_err());
}

#[test]
fn first_cashflow_the_pricer_cannot_value() {
    let kinds = vec![CashflowKind::FixedRateCoupon, CashflowKind::FloatingRateCoupon, CashflowKind::OptionEmbeddedCoupon];
    assert_eq!(first_cashflow_issue(&kinds, true), Some((2, CashflowIssue::NonLinearPayoff)));
    assert_eq!(first_cashflow_issue(&kinds, false), Some((1, CashflowIssue::MissingForwardIndex)));
    let plain = vec![CashflowKind::Disbursement, CashflowKind::FixedRateCoupon, CashflowKind::Redemption];
    assert_eq!(first_cashflow_issue(&plain, false), None);
    assert_eq!(first_cashflow_issue(&vec![CashflowKind::Other], true), Some((0, CashflowIssue::UnsupportedCashflow)));
}

#[test]
fn sensitivity_curves_once_each_then_collateral() {
    let legs = vec![
        LegSummary { forward_index: Some(MarketIndex::SOFR), currency: Currency::USD },
        LegSummary { forward_index: Some(MarketIndex::ESTR), currency: Currency::EUR },
    ];
    let discounts = vec![Some(MarketIndex::SOFR), Some(MarketIndex::TermSOFR3m)];
    let plain: DiscountedCashflowPricer<UsdCsaPolicy> = DiscountedCashflowPricer::new();
    let names: Vec<String> =
        plain.sensitivity_indices(&legs, &discounts).unwrap().iter().map(|m| format!("{:?}", m)).collect();
    assert_eq!(names, vec!["SOFR", "ESTR", "TermSOFR3m"]);

    let mut pricer = DiscountedCashflowPricer::new();
    pricer.set_discount_policy(UsdCsaPolicy);
    let names: Vec<String> =
        pricer.sensitivity_indices(&legs, &discounts).unwrap().iter().map(|m| format!("{:?}", m)).collect();
    assert_eq!(names, vec!["SOFR", "ESTR", "TermSOFR3m", "Collateral(EUR, USD)"]);

    let gbp = vec![LegSummary { forward_index: None, currency: Currency::GBP }];
    assert!(matches!(pricer.sensitivity_indices(&gbp, &vec![None]), Err(QSError::InvalidValue(_))));
}

#[test]
fn fixings_are_requested_for_started_coupons() {
    let legs = vec![
        LegSummary { forward_index: Some(MarketIndex::SOFR), currency: Currency::USD },
        LegSummary { forward_index: None, currency: Currency::EUR },
    ];
    let eval = Date::new(2024, 6, 1);
    let coupons = vec![
        vec![
            FloatingCoupon { accrual_start: Date::new(2024, 3, 1), market_index: MarketIndex::TermSOFR3m },
            FloatingCoupon { accrual_start: Date::new(2024, 6, 1), market_index: MarketIndex::TermSOFR3m },
        ],
        vec![FloatingCoupon { accrual_start: Date::new(2024, 5, 15), market_index: MarketIndex::ESTR }],
    ];
    let requests = fixing_requests(&legs, &coupons, eval);
    assert_eq!(requests.len(), 2);
    assert!(matches!(requests[0].market_index, MarketIndex::SOFR));
    assert_eq!(requests[0].date, Date::new(2024, 3, 1));
    assert!(matches!(requests[1].market_index, MarketIndex::ESTR));
    assert_eq!(requests[1].date, Date::new(2024, 5, 15));
}
