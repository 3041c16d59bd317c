//! Prices caplets and floorlets with the closed-form Black formula.
use vstd::prelude::*;

use crate::indices::{index_key, MarketIndex};
use crate::pricing::collateral::DiscountPolicy;
use crate::pricing::marketdata::{
    discount_curves, elements_view, fresh_keys, keys_view, push_fresh_discount_curves,
    ConstructedElementRequest, FxRequest, MarketDataRequest,
};

verus! {

/// Prices caplets and floorlets with the closed-form Black formula.
pub struct ClosedFormBlackCapletPricer<P> {
    discount_policy: Option<P>,
}

impl<P> ClosedFormBlackCapletPricer<P> {
    /// The discount policy, if one is set.
    pub closed spec fn spec_discount_policy(&self) -> Option<P> {
        self.discount_policy
    }

    /// Creates a new [`ClosedFormBlackCapletPricer`] without a discount policy.
    pub fn new() -> (r: Self)
        ensures
            r.spec_discount_policy() is None,
    {
        Self { discount_policy: None }
    }

    /// Sets the discount policy used to select discount curves.
    pub fn set_discount_policy(&mut self, policy: P)
        ensures
            final(self).spec_discount_policy() == Some(policy),
    {
        self.discount_policy = Some(policy);
    }

    /// The discount policy, if one is set.
    pub fn discount_policy(&self) -> (r: Option<&P>)
        ensures
            r matches Some(p) ==> self.spec_discount_policy() == Some(*p),
            r is None <==> self.spec_discount_policy() is None,
    {
        match &self.discount_policy {
            Some(p) => Some(p),
            None => None,
        }
    }
}

impl<P> Default for ClosedFormBlackCapletPricer<P> {
    fn default() -> (r: Self)
        ensures
            r.spec_discount_policy() is None,
    {
        Self::new()
    }
}


impl<P: DiscountPolicy> ClosedFormBlackCapletPricer<P> {
    /// The market data needed to price a caplet or floorlet on `market_index`
    /// (see [`ClosedFormBlackCapletPricer::request_with_policy_indices`]),
    /// with the indices of the discount policy when one is set.
    pub fn market_data_request(&self, market_index: &MarketIndex) -> (r: Option<MarketDataRequest>)
        ensures
            r matches Some(req) && req.spec_elements().len() >= 2 && req.spec_elements()[0] == (
                0int,
                index_key(*market_index),
            ) && req.spec_elements()[1] == (2int, index_key(*market_index)),
            self.spec_discount_policy() is None ==> (r matches Some(req) && req.spec_elements() == seq![
                (0int, index_key(*market_index)),
                (2int, index_key(*market_index)),
            ]),
            self.spec_discount_policy() matches Some(p) ==> (r matches Some(req) && req.spec_elements() == seq![
                (0int, index_key(*market_index)),
                (2int, index_key(*market_index)),
            ] + discount_curves(fresh_keys(seq![index_key(*market_index)], keys_view(p.spec_discount_indices())))),
            r matches Some(req) ==> req.spec_fx() == Seq::<FxRequest>::empty(),
    {
        let policy_indices = match &self.discount_policy {
            Some(policy) => Some(policy.discount_indices()),
            None => None,
        };
        let r = Self::request_with_policy_indices(market_index, policy_indices);
        proof {
            assert(discount_curves(Seq::empty()) =~= Seq::empty());
        }
        Some(r)
    }

    /// The discount curve and the volatility surface of `market_index`, then
    /// a discount curve for each of `policy_indices` not requested yet.
    pub fn request_with_policy_indices(market_index: &MarketIndex, policy_indices: Option<Vec<MarketIndex>>) -> (r: MarketDataRequest)
        ensures
            r.spec_elements() == seq![
                (0int, index_key(*market_index)),
                (2int, index_key(*market_index)),
            ] + discount_curves(
                match policy_indices {
                    Some(v) => fresh_keys(seq![index_key(*market_index)], keys_view(v@)),
                    None => Seq::empty(),
                },
            ),
            r.spec_fx() == Seq::<FxRequest>::empty(),
    {
        let mut elements: Vec<ConstructedElementRequest> = Vec::new();
        elements.push(ConstructedElementRequest::DiscountCurve { market_index: market_index.duplicate() });
        elements.push(ConstructedElementRequest::VolatilitySurface { market_index: market_index.duplicate() });
        let mut seen: Vec<MarketIndex> = Vec::new();
        seen.push(market_index.duplicate());
        proof {
            assert(keys_view(seen@) =~= seq![index_key(*market_index)]);
            assert(elements_view(elements@) =~= seq![
                (0int, index_key(*market_index)),
                (2int, index_key(*market_index)),
            ]);
        }
        match &policy_indices {
            Some(v) => push_fresh_discount_curves(&mut elements, &mut seen, v),
            None => {
                assert(elements_view(elements@) =~= elements_view(elements@) + discount_curves(Seq::empty()));
            },
        }
        MarketDataRequest::default().with_constructed_elements_request(elements)
    }
}

} // verus!
