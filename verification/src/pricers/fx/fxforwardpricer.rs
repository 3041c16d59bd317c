//! Prices FX forwards from the discount curves of both currencies.
use vstd::prelude::*;

use crate::currencies::Currency;
use crate::errors::QSError;
use crate::indices::MarketIndex;
use crate::pricing::collateral::{AssetClass, DiscountPolicy, Discountable};
use crate::pricing::marketdata::{
    accepted_indices, accepted_keys, discount_curves, elements_view, fresh_keys, keys_view,
    push_fresh_discount_curves, ConstructedElementRequest, FxRequest, MarketDataRequest,
};

verus! {

/// Prices FX forwards from the discount curves of both currencies.
pub struct FxForwardPricer<P> {
    discount_policy: Option<P>,
}

impl<P> FxForwardPricer<P> {
    /// The discount policy, if one is set.
    pub closed spec fn spec_discount_policy(&self) -> Option<P> {
        self.discount_policy
    }

    /// Creates a new [`FxForwardPricer`] without a discount policy.
    pub fn new() -> (r: Self)
        ensures
            r.spec_discount_policy() is None,
    {
        Self { discount_policy: None }
    }

    /// Sets the discount policy used to select discount curves.
    pub fn set_discount_policy(&mut self, policy: P)
        ensures
            final(self).spec_discount_policy() == Some(policy),
    {
        self.discount_policy = Some(policy);
    }

    /// The discount policy, if one is set.
    pub fn discount_policy(&self) -> (r: Option<&P>)
        ensures
            r matches Some(p) ==> self.spec_discount_policy() == Some(*p),
            r is None <==> self.spec_discount_policy() is None,
    {
        match &self.discount_policy {
            Some(p) => Some(p),
            None => None,
        }
    }
}

impl<P> Default for FxForwardPricer<P> {
    fn default() -> (r: Self)
        ensures
            r.spec_discount_policy() is None,
    {
        Self::new()
    }
}


/// Stands for one currency of an FX forward when asking the discount policy
/// for that currency's discount curve.
struct CurrencyDiscountable {
    currency: Currency,
}

impl Discountable for CurrencyDiscountable {
    /// A currency of an FX forward is an FX instrument.
    open spec fn spec_asset_class(&self) -> AssetClass {
        AssetClass::Fx
    }

    /// The currency it stands for.
    closed spec fn spec_currency(&self) -> Currency {
        self.currency
    }

    fn asset_class(&self) -> AssetClass {
        AssetClass::Fx
    }

    fn currency(&self) -> Currency {
        self.currency
    }
}

impl<P: DiscountPolicy> FxForwardPricer<P> {
    /// The market data needed to price an FX forward of `base` against
    /// `quote` (see [`FxForwardPricer::request_with_accepted`]); none without
    /// a discount policy.
    pub fn market_data_request(&self, base: Currency, quote: Currency) -> (r: Option<MarketDataRequest>)
        ensures
            (r is None) <==> self.spec_discount_policy() is None,
            r matches Some(req) ==> req.spec_fx() == seq![FxRequest { base, quote }],
            self.spec_discount_policy() matches Some(p) ==> (r matches Some(req) && req.spec_elements()
                == discount_curves(
                fresh_keys(
                    Seq::empty(),
                    accepted_keys(seq![p.spec_accept(AssetClass::Fx, base), p.spec_accept(AssetClass::Fx, quote)]),
                ),
            )),
    {
        let policy = match &self.discount_policy {
            Some(p) => p,
            None => return None,
        };
        let on_base = policy.accept(&CurrencyDiscountable { currency: base });
        let on_quote = policy.accept(&CurrencyDiscountable { currency: quote });
        Some(Self::request_with_accepted(base, quote, on_base, on_quote))
    }

    /// The conversion of `base` into `quote`, and a discount curve for each
    /// index the policy accepted for the two currencies, once each.
    pub fn request_with_accepted(
        base: Currency,
        quote: Currency,
        on_base: Result<MarketIndex, QSError>,
        on_quote: Result<MarketIndex, QSError>,
    ) -> (r: MarketDataRequest)
        ensures
            r.spec_fx() == seq![FxRequest { base, quote }],
            r.spec_elements() == discount_curves(
                fresh_keys(Seq::empty(), accepted_keys(seq![on_base, on_quote])),
            ),
    {
        let mut acc: Vec<Result<MarketIndex, QSError>> = Vec::new();
        acc.push(on_base);
        acc.push(on_quote);
        assert(acc@ =~= seq![on_base, on_quote]);
        let candidates = accepted_indices(&acc);
        let mut elements: Vec<ConstructedElementRequest> = Vec::new();
        let mut seen: Vec<MarketIndex> = Vec::new();
        proof {
            assert(elements_view(elements@) =~= Seq::empty());
            assert(keys_view(seen@) =~= Seq::empty());
        }
        push_fresh_discount_curves(&mut elements, &mut seen, &candidates);
        assert(elements_view(elements@) =~= Seq::empty() + discount_curves(
            fresh_keys(Seq::empty(), keys_view(candidates@)),
        ));
        let mut fx: Vec<FxRequest> = Vec::new();
        fx.push(FxRequest::pair(base, quote));
        let mut request = MarketDataRequest::default().with_fx_request(fx);
        proof {
            assert(elements_view(elements@) =~= discount_curves(
                fresh_keys(Seq::empty(), accepted_keys(seq![on_base, on_quote])),
            ));
        }
        if elements.len() > 0 {
            request = request.with_constructed_elements_request(elements);
        } else {
            assert(elements_view(elements@) =~= Seq::empty());
        }
        request
    }
}

} // verus!
