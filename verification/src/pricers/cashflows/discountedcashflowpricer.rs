//! Prices instruments by discounting their cashflows.
use vstd::prelude::*;

use crate::currencies::Currency;
use crate::errors::QSError;
use crate::time::Date;
use crate::indices::{index_key, MarketIndex};
use crate::pricing::collateral::{AssetClass, DiscountPolicy, Discountable};
use crate::pricing::marketdata::{
    accepted_indices, accepted_keys, discount_curves, elements_view, fresh_keys, keys_view,
    push_fresh_discount_curves, ConstructedElementRequest, FxRequest, MarketDataRequest,
};

verus! {

/// Prices instruments by discounting their cashflows.
pub struct DiscountedCashflowPricer<P> {
    discount_policy: Option<P>,
}

impl<P> DiscountedCashflowPricer<P> {
    /// The discount policy, if one is set.
    pub closed spec fn spec_discount_policy(&self) -> Option<P> {
        self.discount_policy
    }

    /// Creates a new [`DiscountedCashflowPricer`] without a discount policy.
    pub fn new() -> (r: Self)
        ensures
            r.spec_discount_policy() is None,
    {
        Self { discount_policy: None }
    }

    /// Sets the discount policy used to select discount curves.
    pub fn set_discount_policy(&mut self, policy: P)
        ensures
            final(self).spec_discount_policy() == Some(policy),
    {
        self.discount_policy = Some(policy);
    }

    /// The discount policy, if one is set.
    pub fn discount_policy(&self) -> (r: Option<&P>)
        ensures
            r matches Some(p) ==> self.spec_discount_policy() == Some(*p),
            r is None <==> self.spec_discount_policy() is None,
    {
        match &self.discount_policy {
            Some(p) => Some(p),
            None => None,
        }
    }
}

impl<P> Default for DiscountedCashflowPricer<P> {
    fn default() -> (r: Self)
        ensures
            r.spec_discount_policy() is None,
    {
        Self::new()
    }
}


/// What the pricer reads of a leg to request market data: the index its
/// floating coupons fix on, if any, and its currency.
#[derive(Clone, Debug)]
pub struct LegSummary {
    pub forward_index: Option<MarketIndex>,
    pub currency: Currency,
}

impl Discountable for LegSummary {
    /// A leg is a rates instrument.
    open spec fn spec_asset_class(&self) -> AssetClass {
        AssetClass::Rates
    }

    /// The currency of the leg.
    open spec fn spec_currency(&self) -> Currency {
        self.currency
    }

    fn asset_class(&self) -> AssetClass {
        AssetClass::Rates
    }

    fn currency(&self) -> Currency {
        self.currency
    }
}

/// The keys of the legs' forward indices, in leg order.
pub open spec fn forward_keys(legs: Seq<LegSummary>) -> Seq<(int, Option<(Currency, Currency)>, Seq<char>)>
    decreases legs.len(),
{
    if legs.len() == 0 {
        seq![]
    } else {
        let prev = forward_keys(legs.drop_last());
        match legs.last().forward_index {
            Some(m) => prev.push(index_key(m)),
            None => prev,
        }
    }
}

/// The FX conversions needed under a collateral agreement: for each leg whose
/// accepted discount index is the collateral curve in `coll`, the conversion
/// of the leg currency into `coll`.
pub open spec fn collateral_fx(legs: Seq<LegSummary>, acc: Seq<Result<MarketIndex, QSError>>) -> Seq<FxRequest>
    decreases legs.len(),
{
    if legs.len() == 0 || acc.len() != legs.len() {
        seq![]
    } else {
        let prev = collateral_fx(legs.drop_last(), acc.drop_last());
        match acc.last() {
            Ok(MarketIndex::Collateral(_, coll)) => prev.push(FxRequest { base: legs.last().currency, quote: coll }),
            _ => prev,
        }
    }
}

/// What the discount policy `p` accepts for each leg, in leg order (a leg is
/// a rates instrument in its own currency).
pub open spec fn leg_acceptances<P: DiscountPolicy>(p: P, legs: Seq<LegSummary>) -> Seq<Result<MarketIndex, QSError>> {
    Seq::new(legs.len(), |i: int| p.spec_accept(AssetClass::Rates, legs[i].currency))
}

impl<P: DiscountPolicy> DiscountedCashflowPricer<P> {
    /// The market data needed to price cashflows on `legs` (see
    /// [`DiscountedCashflowPricer::request_for_legs`]), with the index the
    /// discount policy accepts for each leg when a policy is set.
    pub fn market_data_request(&self, legs: &Vec<LegSummary>) -> (r: Option<MarketDataRequest>)
        ensures
            r is Some,
            self.spec_discount_policy() is None ==> (r matches Some(req) && req.spec_elements()
                == discount_curves(fresh_keys(Seq::empty(), forward_keys(legs@))) && req.spec_fx()
                == Seq::<FxRequest>::empty()),
            self.spec_discount_policy() matches Some(p) ==> (r matches Some(req) && req.spec_elements()
                == discount_curves(
                fresh_keys(Seq::empty(), forward_keys(legs@)) + fresh_keys(
                    fresh_keys(Seq::empty(), forward_keys(legs@)),
                    accepted_keys(leg_acceptances(p, legs@)),
                ),
            ) && req.spec_fx() == collateral_fx(legs@, leg_acceptances(p, legs@))),
    {
        let accepted = match &self.discount_policy {
            Some(policy) => {
                let mut acc: Vec<Result<MarketIndex, QSError>> = Vec::new();
                let mut i: usize = 0;
                while i < legs.len()
                    invariant
                        i <= legs@.len(),
                        acc@ == leg_acceptances(*policy, legs@).take(i as int),
                    decreases legs@.len() - i,
                {
                    let ghost before = acc@;
                    acc.push(policy.accept(&legs[i]));
                    assert(acc@ =~= leg_acceptances(*policy, legs@).take(i as int + 1)) by {
                        assert(acc@ =~= before.push(leg_acceptances(*policy, legs@)[i as int]));
                    }
                    i = i + 1;
                }
                assert(acc@ =~= leg_acceptances(*policy, legs@));
                Some(acc)
            },
            None => None,
        };
        Some(Self::request_for_legs(legs, accepted))
    }

    /// A discount curve for each leg's forward index, once each; then, with
    /// the indices a discount policy accepted for the legs, a discount curve
    /// for each accepted index not requested yet, and the conversion of each
    /// leg's currency into the collateral currency of its accepted collateral
    /// curve.
    pub fn request_for_legs(legs: &Vec<LegSummary>, accepted: Option<Vec<Result<MarketIndex, QSError>>>) -> (r: MarketDataRequest)
        requires
            accepted matches Some(a) ==> a@.len() == legs@.len(),
        ensures
            r.spec_elements() == discount_curves(
                fresh_keys(Seq::empty(), forward_keys(legs@)) + match accepted {
                    Some(a) => fresh_keys(
                        fresh_keys(Seq::empty(), forward_keys(legs@)),
                        accepted_keys(a@),
                    ),
                    None => Seq::empty(),
                },
            ),
            r.spec_fx() == match accepted {
                Some(a) => collateral_fx(legs@, a@),
                None => Seq::<FxRequest>::empty(),
            },
    {
        let mut forward: Vec<MarketIndex> = Vec::new();
        let mut i: usize = 0;
        while i < legs.len()
            invariant
                i <= legs@.len(),
                keys_view(forward@) == forward_keys(legs@.take(i as int)),
            decreases legs@.len() - i,
        {
            let ghost before = forward@;
            proof {
                assert(legs@.take(i as int + 1).drop_last() =~= legs@.take(i as int));
                assert(legs@.take(i as int + 1).last() == legs@[i as int]);
            }
            match &legs[i].forward_index {
                Some(m) => {
                    forward.push(m.duplicate());
                    assert(keys_view(forward@) =~= keys_view(before).push(index_key(*m)));
                },
                None => {},
            }
            i = i + 1;
        }
        assert(legs@.take(i as int) =~= legs@);
        let mut elements: Vec<ConstructedElementRequest> = Vec::new();
        let mut seen: Vec<MarketIndex> = Vec::new();
        proof {
            assert(elements_view(elements@) =~= Seq::empty());
            assert(keys_view(seen@) =~= Seq::empty());
        }
        push_fresh_discount_curves(&mut elements, &mut seen, &forward);
        let ghost fwd_fresh = fresh_keys(Seq::empty(), forward_keys(legs@));
        assert(keys_view(seen@) =~= fwd_fresh);
        assert(elements_view(elements@) =~= discount_curves(fwd_fresh));
        let mut fx: Vec<FxRequest> = Vec::new();
        match &accepted {
            Some(a) => {
                let mut k: usize = 0;
                while k < legs.len()
                    invariant
                        k <= legs@.len(),
                        a@.len() == legs@.len(),
                        fx@ == collateral_fx(legs@.take(k as int), a@.take(k as int)),
                    decreases legs@.len() - k,
                {
                    proof {
                        assert(legs@.take(k as int + 1).drop_last() =~= legs@.take(k as int));
                        assert(a@.take(k as int + 1).drop_last() =~= a@.take(k as int));
                        assert(legs@.take(k as int + 1).last() == legs@[k as int]);
                        assert(a@.take(k as int + 1).last() == a@[k as int]);
                    }
                    match &a[k] {
                        Ok(MarketIndex::Collateral(_, coll)) => {
                            fx.push(FxRequest::pair(legs[k].currency, *coll));
                        },
                        _ => {},
                    }
                    k = k + 1;
                }
                assert(legs@.take(k as int) =~= legs@);
                assert(a@.take(k as int) =~= a@);
                let csa = accepted_indices(a);
                let ghost el1 = elements_view(elements@);
                push_fresh_discount_curves(&mut elements, &mut seen, &csa);
                proof {
                    let extra = fresh_keys(fwd_fresh, accepted_keys(a@));
                    assert(discount_curves(fwd_fresh + extra) =~= discount_curves(fwd_fresh) + discount_curves(extra));
                }
            },
            None => {
                assert(discount_curves(fwd_fresh + Seq::empty()) =~= discount_curves(fwd_fresh));
            },
        }
        let mut request = MarketDataRequest::default().with_constructed_elements_request(elements);
        if fx.len() > 0 {
            request = request.with_fx_request(fx);
        } else {
            assert(fx@ =~= Seq::<FxRequest>::empty());
        }
        request
    }
}


/// The discount curves of a market data response whose rate index is in
/// currency `c`, in order. Each curve comes with the currency of its rate
/// index, when it has one.
pub open spec fn curves_in_currency(curves: Seq<(MarketIndex, Option<Currency>)>, c: Currency) -> Seq<MarketIndex>
    decreases curves.len(),
{
    if curves.len() == 0 {
        seq![]
    } else {
        let prev = curves_in_currency(curves.drop_last(), c);
        if curves.last().1 == Some(c) {
            prev.push(curves.last().0)
        } else {
            prev
        }
    }
}

/// The one discount curve in currency `c` among `curves`: an error when the
/// response is missing, when there is none, or when there are several.
pub open spec fn sole_curve_in_currency(curves: Option<Seq<(MarketIndex, Option<Currency>)>>, c: Currency) -> Result<
    MarketIndex,
    QSError,
> {
    match curves {
        None => Err(QSError::MarketDataNotAvailable),
        Some(cs) => {
            let m = curves_in_currency(cs, c);
            if m.len() == 0 {
                Err(QSError::NoDiscountCurve(c))
            } else if m.len() == 1 {
                Ok(m[0])
            } else {
                Err(QSError::AmbiguousDiscountCurve(c))
            }
        },
    }
}

/// The curves in currency `c` of a prefix of `curves` come first, in order,
/// among those of all of `curves`.
proof fn lemma_curves_in_currency_prefix(curves: Seq<(MarketIndex, Option<Currency>)>, c: Currency, i: int)
    requires
        0 <= i <= curves.len(),
    ensures
        curves_in_currency(curves.take(i), c).len() <= curves_in_currency(curves, c).len(),
        forall|k: int|
            0 <= k < curves_in_currency(curves.take(i), c).len() ==> curves_in_currency(curves, c)[k]
                == #[trigger] curves_in_currency(curves.take(i), c)[k],
    decreases curves.len(),
{
    if i < curves.len() {
        lemma_curves_in_currency_prefix(curves.drop_last(), c, i);
        assert(curves.drop_last().take(i) =~= curves.take(i));
    } else {
        assert(curves.take(i) =~= curves);
    }
}

/// The one curve in currency `c` among `curves` (see `sole_curve_in_currency`).
fn sole_curve(curves: &Vec<(MarketIndex, Option<Currency>)>, c: Currency) -> (r: Result<MarketIndex, QSError>)
    ensures
        r == sole_curve_in_currency(Some(curves@), c),
{
    let mut first: Option<MarketIndex> = None;
    let mut i: usize = 0;
    while i < curves.len()
        invariant
            i <= curves@.len(),
            curves_in_currency(curves@.take(i as int), c).len() <= 1,
            first is None <==> curves_in_currency(curves@.take(i as int), c).len() == 0,
            first matches Some(f) ==> f == curves_in_currency(curves@.take(i as int), c)[0],
        decreases curves@.len() - i,
    {
        proof {
            assert(curves@.take(i as int + 1).drop_last() =~= curves@.take(i as int));
            assert(curves@.take(i as int + 1).last() == curves@[i as int]);
        }
        if curves[i].1 == Some(c) {
            match &first {
                Some(_) => {
                    proof {
                        lemma_curves_in_currency_prefix(curves@, c, i as int + 1);
                    }
                    return Err(QSError::AmbiguousDiscountCurve(c));
                },
                None => {
                    first = Some(curves[i].0.duplicate());
                },
            }
        }
        i = i + 1;
    }
    proof {
        assert(curves@.take(i as int) =~= curves@);
    }
    match first {
        Some(f) => Ok(f),
        None => Err(QSError::NoDiscountCurve(c)),
    }
}

impl<P: DiscountPolicy> DiscountedCashflowPricer<P> {
    /// The index whose curve discounts a leg. With a discount policy, the
    /// index the policy accepts for the leg. Without one: for a leg with
    /// floating coupons, the one discount curve of the market data response
    /// in the leg currency; otherwise the leg's own discount index, else its
    /// forward index, else the one discount curve in the leg currency.
    /// `curves` is the market data response's discount curves, each with the
    /// currency of its rate index when it has one (`None` without a
    /// response).
    pub fn leg_discount_index(
        &self,
        leg: &LegSummary,
        has_floating: bool,
        leg_discount_index: &Option<MarketIndex>,
        curves: &Option<Vec<(MarketIndex, Option<Currency>)>>,
    ) -> (r: Result<MarketIndex, QSError>)
        ensures
            r == match self.spec_discount_policy() {
                Some(p) => p.spec_accept(AssetClass::Rates, leg.currency),
                None => {
                    let response = match curves {
                        Some(v) => Some(v@),
                        None => None,
                    };
                    if has_floating {
                        sole_curve_in_currency(response, leg.currency)
                    } else if leg_discount_index is Some {
                        Ok(leg_discount_index->Some_0)
                    } else if leg.forward_index is Some {
                        Ok(leg.forward_index->Some_0)
                    } else {
                        sole_curve_in_currency(response, leg.currency)
                    }
                },
            },
    {
        if let Some(policy) = &self.discount_policy {
            return policy.accept(leg);
        }
        if !has_floating {
            if let Some(m) = leg_discount_index {
                return Ok(m.duplicate());
            }
            if let Some(m) = &leg.forward_index {
                return Ok(m.duplicate());
            }
        }
        match curves {
            Some(v) => sole_curve(v, leg.currency),
            None => Err(QSError::MarketDataNotAvailable),
        }
    }
}

/// The kind of a cashflow of a leg, as the pricer tells them apart.
#[derive(Clone, Copy, Debug, PartialEq, Eq, Structural)]
pub enum CashflowKind {
    FixedRateCoupon,
    FloatingRateCoupon,
    OptionEmbeddedCoupon,
    Redemption,
    Disbursement,
    /// Any other cashflow.
    Other,
}

/// Why the pricer cannot value a cashflow.
#[derive(Clone, Copy, Debug, PartialEq, Eq, Structural)]
pub enum CashflowIssue {
    /// A floating rate coupon on a leg without a forward index.
    MissingForwardIndex,
    /// An option-embedded coupon: a non-linear payoff.
    NonLinearPayoff,
    /// A cashflow of a kind the pricer does not value.
    UnsupportedCashflow,
}

/// What stops the pricer from valuing a cashflow of kind `k` on a leg that
/// has (or has not) a forward index, if anything.
pub open spec fn cashflow_issue(k: CashflowKind, has_forward_index: bool) -> Option<CashflowIssue> {
    match k {
        CashflowKind::FloatingRateCoupon => if has_forward_index {
            None
        } else {
            Some(CashflowIssue::MissingForwardIndex)
        },
        CashflowKind::OptionEmbeddedCoupon => Some(CashflowIssue::NonLinearPayoff),
        CashflowKind::Other => Some(CashflowIssue::UnsupportedCashflow),
        _ => None,
    }
}

/// The first cashflow of a leg, in order, that the pricer cannot value, with
/// the reason; `None` when it can value them all.
pub fn first_cashflow_issue(kinds: &Vec<CashflowKind>, has_forward_index: bool) -> (r: Option<(usize, CashflowIssue)>)
    ensures
        r matches Some((k, issue)) ==> k < kinds@.len() && cashflow_issue(kinds@[k as int], has_forward_index)
            == Some(issue) && forall|j: int|
            0 <= j < k ==> cashflow_issue(#[trigger] kinds@[j], has_forward_index) is None,
        r is None ==> forall|j: int|
            0 <= j < kinds@.len() ==> cashflow_issue(#[trigger] kinds@[j], has_forward_index) is None,
{
    let mut i: usize = 0;
    while i < kinds.len()
        invariant
            i <= kinds@.len(),
            forall|j: int| 0 <= j < i ==> cashflow_issue(#[trigger] kinds@[j], has_forward_index) is None,
        decreases kinds@.len() - i,
    {
        let issue = match kinds[i] {
            CashflowKind::FloatingRateCoupon => if has_forward_index {
                None
            } else {
                Some(CashflowIssue::MissingForwardIndex)
            },
            CashflowKind::OptionEmbeddedCoupon => Some(CashflowIssue::NonLinearPayoff),
            CashflowKind::Other => Some(CashflowIssue::UnsupportedCashflow),
            _ => None,
        };
        if let Some(x) = issue {
            return Some((i, x));
        }
        i = i + 1;
    }
    None
}

/// The key of an optional index, as a sequence of at most one key.
pub open spec fn opt_key(o: Option<MarketIndex>) -> Seq<(int, Option<(Currency, Currency)>, Seq<char>)> {
    match o {
        Some(m) => seq![index_key(m)],
        None => seq![],
    }
}

/// The curves that carry the legs' sensitivities, leg by leg: each leg's
/// forward index, then its own discount index.
pub open spec fn leg_curve_keys(legs: Seq<LegSummary>, discounts: Seq<Option<MarketIndex>>) -> Seq<
    (int, Option<(Currency, Currency)>, Seq<char>),
>
    decreases legs.len(),
{
    if legs.len() == 0 || discounts.len() != legs.len() {
        seq![]
    } else {
        leg_curve_keys(legs.drop_last(), discounts.drop_last()) + opt_key(legs.last().forward_index) + opt_key(
            discounts.last(),
        )
    }
}

impl<P: DiscountPolicy> DiscountedCashflowPricer<P> {
    /// The curves whose pillars carry the sensitivities of the legs, once
    /// each: the legs' forward indices and own discount indices
    /// (`discounts`, one per leg), leg by leg; then, with a discount policy,
    /// the collateral curve it accepts for each leg.
    ///
    /// ## Errors
    /// The policy's error for the first leg it does not accept.
    pub fn sensitivity_indices(&self, legs: &Vec<LegSummary>, discounts: &Vec<Option<MarketIndex>>) -> (r: Result<
        Vec<MarketIndex>,
        QSError,
    >)
        requires
            discounts@.len() == legs@.len(),
        ensures
            self.spec_discount_policy() is None ==> (r matches Ok(v) && keys_view(v@) == fresh_keys(
                Seq::empty(),
                leg_curve_keys(legs@, discounts@),
            )),
            self.spec_discount_policy() matches Some(p) ==> {
                let acc = leg_acceptances(p, legs@);
                let base = fresh_keys(Seq::empty(), leg_curve_keys(legs@, discounts@));
                &&& (r is Ok <==> forall|i: int| 0 <= i < acc.len() ==> #[trigger] acc[i] is Ok)
                &&& (r matches Ok(v) ==> keys_view(v@) == base + fresh_keys(base, accepted_keys(acc)))
                &&& (r matches Err(e) ==> exists|i: int|
                    0 <= i < acc.len() && (forall|j: int| 0 <= j < i ==> #[trigger] acc[j] is Ok) && acc[i]
                        == Err::<MarketIndex, QSError>(e))
            },
    {
        let mut candidates: Vec<MarketIndex> = Vec::new();
        let mut i: usize = 0;
        while i < legs.len()
            invariant
                i <= legs@.len(),
                discounts@.len() == legs@.len(),
                keys_view(candidates@) == leg_curve_keys(legs@.take(i as int), discounts@.take(i as int)),
            decreases legs@.len() - i,
        {
            let ghost before = keys_view(candidates@);
            proof {
                assert(legs@.take(i as int + 1).drop_last() =~= legs@.take(i as int));
                assert(discounts@.take(i as int + 1).drop_last() =~= discounts@.take(i as int));
                assert(legs@.take(i as int + 1).last() == legs@[i as int]);
                assert(discounts@.take(i as int + 1).last() == discounts@[i as int]);
            }
            match &legs[i].forward_index {
                Some(m) => {
                    candidates.push(m.duplicate());
                },
                None => {},
            }
            let ghost mid = keys_view(candidates@);
            assert(mid =~= before + opt_key(legs@[i as int].forward_index));
            match &discounts[i] {
                Some(m) => {
                    candidates.push(m.duplicate());
                },
                None => {},
            }
            assert(keys_view(candidates@) =~= mid + opt_key(discounts@[i as int]));
            i = i + 1;
        }
        proof {
            assert(legs@.take(i as int) =~= legs@);
            assert(discounts@.take(i as int) =~= discounts@);
        }
        let mut elements: Vec<ConstructedElementRequest> = Vec::new();
        let mut seen: Vec<MarketIndex> = Vec::new();
        assert(keys_view(seen@) =~= Seq::empty());
        push_fresh_discount_curves(&mut elements, &mut seen, &candidates);
        let ghost base = fresh_keys(Seq::empty(), leg_curve_keys(legs@, discounts@));
        assert(keys_view(seen@) =~= base);
        match &self.discount_policy {
            None => Ok(seen),
            Some(policy) => {
                let ghost acc = leg_acceptances(*policy, legs@);
                let mut accepted: Vec<MarketIndex> = Vec::new();
                let mut k: usize = 0;
                while k < legs.len()
                    invariant
                        k <= legs@.len(),
                        acc == leg_acceptances(*policy, legs@),
                        self.spec_discount_policy() == Some(*policy),
                        forall|j: int| 0 <= j < k ==> #[trigger] acc[j] is Ok,
                        keys_view(accepted@) == accepted_keys(acc.take(k as int)),
                    decreases legs@.len() - k,
                {
                    let ghost before = keys_view(accepted@);
                    match policy.accept(&legs[k]) {
                        Ok(m) => {
                            proof {
                                assert(acc.take(k as int + 1).drop_last() =~= acc.take(k as int));
                                assert(acc.take(k as int + 1).last() == acc[k as int]);
                            }
                            accepted.push(m);
                            assert(keys_view(accepted@) =~= before.push(index_key(m)));
                        },
                        Err(e) => {
                            assert(acc[k as int] == Err::<MarketIndex, QSError>(e));
                            return Err(e);
                        },
                    }
                    k = k + 1;
                }
                assert(acc.take(k as int) =~= acc);
                push_fresh_discount_curves(&mut elements, &mut seen, &accepted);
                Ok(seen)
            },
        }
    }
}

/// A floating rate coupon as the pricer reads it to request fixings: the
/// start of its accrual period and the index it fixes on.
#[derive(Clone, Debug)]
pub struct FloatingCoupon {
    pub accrual_start: Date,
    pub market_index: MarketIndex,
}

/// A fixing to request: the index and the date.
#[derive(Clone, Debug)]
pub struct FixingRequest {
    pub market_index: MarketIndex,
    pub date: Date,
}

/// The fixings as index keys and dates.
pub open spec fn fixings_view(v: Seq<FixingRequest>) -> Seq<((int, Option<(Currency, Currency)>, Seq<char>), Date)> {
    v.map_values(|f: FixingRequest| (index_key(f.market_index), f.date))
}

/// The fixings that the floating coupons of a leg with forward index `fwd`
/// need: one for each coupon whose accrual started before `eval`, on the
/// leg's forward index or else the coupon's own index, in coupon order.
pub open spec fn coupon_fixings(fwd: Option<MarketIndex>, coupons: Seq<FloatingCoupon>, eval: Date) -> Seq<
    ((int, Option<(Currency, Currency)>, Seq<char>), Date),
>
    decreases coupons.len(),
{
    if coupons.len() == 0 {
        seq![]
    } else {
        let prev = coupon_fixings(fwd, coupons.drop_last(), eval);
        let c = coupons.last();
        if c.accrual_start.serial() < eval.serial() {
            prev.push(
                (
                    index_key(
                        match fwd {
                            Some(m) => m,
                            None => c.market_index,
                        },
                    ),
                    c.accrual_start,
                ),
            )
        } else {
            prev
        }
    }
}

/// The fixings that the legs need, leg by leg (`coupons` holds the floating
/// coupons of each leg).
pub open spec fn legs_fixings(legs: Seq<LegSummary>, coupons: Seq<Vec<FloatingCoupon>>, eval: Date) -> Seq<
    ((int, Option<(Currency, Currency)>, Seq<char>), Date),
>
    decreases legs.len(),
{
    if legs.len() == 0 || coupons.len() != legs.len() {
        seq![]
    } else {
        legs_fixings(legs.drop_last(), coupons.drop_last(), eval) + coupon_fixings(
            legs.last().forward_index,
            coupons.last()@,
            eval,
        )
    }
}

/// The fixings to request before valuation: for each floating coupon whose
/// accrual started before `eval_date`, its start date on the leg's forward
/// index, or on the coupon's own index when the leg has none.
pub fn fixing_requests(legs: &Vec<LegSummary>, coupons: &Vec<Vec<FloatingCoupon>>, eval_date: Date) -> (r: Vec<
    FixingRequest,
>)
    requires
        coupons@.len() == legs@.len(),
    ensures
        fixings_view(r@) == legs_fixings(legs@, coupons@, eval_date),
{
    let mut out: Vec<FixingRequest> = Vec::new();
    let mut i: usize = 0;
    assert(fixings_view(out@) =~= legs_fixings(legs@.take(0), coupons@.take(0), eval_date));
    while i < legs.len()
        invariant
            i <= legs@.len(),
            coupons@.len() == legs@.len(),
            fixings_view(out@) == legs_fixings(legs@.take(i as int), coupons@.take(i as int), eval_date),
        decreases legs@.len() - i,
    {
        let ghost before = fixings_view(out@);
        let cs = &coupons[i];
        let mut j: usize = 0;
        assert(before =~= before + coupon_fixings(legs@[i as int].forward_index, cs@.take(0), eval_date));
        while j < cs.len()
            invariant
                j <= cs@.len(),
                i < legs@.len(),
                *cs == coupons@[i as int],
                fixings_view(out@) == before + coupon_fixings(legs@[i as int].forward_index, cs@.take(j as int), eval_date),
            decreases cs@.len() - j,
        {
            let ghost mid = fixings_view(out@);
            proof {
                assert(cs@.take(j as int + 1).drop_last() =~= cs@.take(j as int));
                assert(cs@.take(j as int + 1).last() == cs@[j as int]);
            }
            let c = &cs[j];
            if c.accrual_start.is_before(eval_date) {
                let index = match &legs[i].forward_index {
                    Some(m) => m.duplicate(),
                    None => c.market_index.duplicate(),
                };
                out.push(FixingRequest { market_index: index, date: c.accrual_start });
                assert(fixings_view(out@) =~= mid.push((index_key(index), c.accrual_start)));
            }
            j = j + 1;
        }
        proof {
            assert(cs@.take(j as int) =~= cs@);
            assert(legs@.take(i as int + 1).drop_last() =~= legs@.take(i as int));
            assert(coupons@.take(i as int + 1).drop_last() =~= coupons@.take(i as int));
            assert(legs@.take(i as int + 1).last() == legs@[i as int]);
            assert(coupons@.take(i as int + 1).last() == coupons@[i as int]);
        }
        i = i + 1;
    }
    assert(legs@.take(i as int) =~= legs@);
    assert(coupons@.take(i as int) =~= coupons@);
    out
}

/// The coupon's accrual started before `eval`.
pub open spec fn coupon_started(c: FloatingCoupon, eval: Date) -> bool {
    c.accrual_start.serial() < eval.serial()
}

/// The fixing a started coupon of a leg with forward index `fwd` needs: its
/// accrual start on the leg's forward index, or on its own index.
pub open spec fn fixing_for(fwd: Option<MarketIndex>, c: FloatingCoupon) -> ((int, Option<(Currency, Currency)>, Seq<char>), Date) {
    (
        index_key(
            match fwd {
                Some(m) => m,
                None => c.market_index,
            },
        ),
        c.accrual_start,
    )
}

/// Every coupon of a leg whose accrual started before `eval` has its fixing
/// requested.
pub proof fn lemma_started_coupons_requested(fwd: Option<MarketIndex>, cs: Seq<FloatingCoupon>, eval: Date)
    ensures
        forall|j: int|
            0 <= j < cs.len() && coupon_started(#[trigger] cs[j], eval) ==> coupon_fixings(fwd, cs, eval).contains(
                fixing_for(fwd, cs[j]),
            ),
    decreases cs.len(),
{
    if cs.len() > 0 {
        let prev = cs.drop_last();
        lemma_started_coupons_requested(fwd, prev, eval);
        let pr = coupon_fixings(fwd, prev, eval);
        let r = coupon_fixings(fwd, cs, eval);
        let last = cs.last();
        assert(coupon_started(last, eval) ==> r == pr.push(fixing_for(fwd, last)));
        assert(!coupon_started(last, eval) ==> r == pr);
        assert forall|j: int| 0 <= j < cs.len() && coupon_started(#[trigger] cs[j], eval) implies r.contains(
            fixing_for(fwd, cs[j]),
        ) by {
            if j < cs.len() - 1 {
                assert(prev[j] == cs[j]);
                assert(pr.contains(fixing_for(fwd, prev[j])));
                let k = choose|k: int| 0 <= k < pr.len() && pr[k] == fixing_for(fwd, prev[j]);
                assert(r[k] == pr[k]);
            } else {
                assert(r[r.len() - 1] == fixing_for(fwd, cs[j]));
            }
        }
    }
}

/// Each fixing requested for a leg is that of a coupon whose accrual started
/// before `eval`.
pub proof fn lemma_requests_come_from_started_coupons(fwd: Option<MarketIndex>, cs: Seq<FloatingCoupon>, eval: Date, k: int)
    requires
        0 <= k < coupon_fixings(fwd, cs, eval).len(),
    ensures
        exists|j: int|
            0 <= j < cs.len() && coupon_started(#[trigger] cs[j], eval) && coupon_fixings(fwd, cs, eval)[k]
                == fixing_for(fwd, cs[j]),
    decreases cs.len(),
{
    let prev = cs.drop_last();
    let pr = coupon_fixings(fwd, prev, eval);
    let r = coupon_fixings(fwd, cs, eval);
    let last = cs.last();
    assert(coupon_started(last, eval) ==> r == pr.push(fixing_for(fwd, last)));
    assert(!coupon_started(last, eval) ==> r == pr);
    if k < pr.len() {
        lemma_requests_come_from_started_coupons(fwd, prev, eval, k);
        let j = choose|j: int| 0 <= j < prev.len() && coupon_started(#[trigger] prev[j], eval) && pr[k] == fixing_for(fwd, prev[j]);
        assert(cs[j] == prev[j]);
        assert(r[k] == pr[k]);
    } else {
        let j = cs.len() - 1;
        assert(cs[j] == last);
        assert(r[k] == fixing_for(fwd, cs[j]));
    }
}

/// A leg has as many fixing requests as coupons whose accrual started before
/// `eval`.
pub proof fn lemma_request_count(fwd: Option<MarketIndex>, cs: Seq<FloatingCoupon>, eval: Date)
    ensures
        coupon_fixings(fwd, cs, eval).len() == cs.filter(|c: FloatingCoupon| coupon_started(c, eval)).len(),
    decreases cs.len(),
{
    reveal(Seq::filter);
    if cs.len() > 0 {
        lemma_request_count(fwd, cs.drop_last(), eval);
    }
}

/// The fixings of all legs: for every leg and every floating coupon of it
/// whose accrual started before `eval`, the fixing at its accrual start is
/// requested, on the leg's forward index or else the coupon's own index.
pub proof fn lemma_legs_fixings_cover(legs: Seq<LegSummary>, coupons: Seq<Vec<FloatingCoupon>>, eval: Date, i: int, j: int)
    requires
        coupons.len() == legs.len(),
        0 <= i < legs.len(),
        0 <= j < coupons[i]@.len(),
        coupon_started(coupons[i]@[j], eval),
    ensures
        legs_fixings(legs, coupons, eval).contains(fixing_for(legs[i].forward_index, coupons[i]@[j])),
    decreases legs.len(),
{
    let last = legs.len() - 1;
    let pl = legs_fixings(legs.drop_last(), coupons.drop_last(), eval);
    let cl = coupon_fixings(legs.last().forward_index, coupons.last()@, eval);
    let r = legs_fixings(legs, coupons, eval);
    assert(r == pl + cl);
    let x = fixing_for(legs[i].forward_index, coupons[i]@[j]);
    if i < last {
        lemma_legs_fixings_cover(legs.drop_last(), coupons.drop_last(), eval, i, j);
        assert(legs.drop_last()[i] == legs[i]);
        assert(coupons.drop_last()[i] == coupons[i]);
        let k = choose|k: int| 0 <= k < pl.len() && pl[k] == x;
        assert(r[k] == x);
    } else {
        lemma_started_coupons_requested(legs[i].forward_index, coupons[i]@, eval);
        assert(coupon_started(coupons[i]@[j], eval));
        assert(cl.contains(x));
        let k = choose|k: int| 0 <= k < cl.len() && cl[k] == x;
        assert(r[pl.len() + k] == x);
    }
}

} // verus!
