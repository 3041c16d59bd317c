//! Prices a credit default swap off a survival curve and a discount curve.
use vstd::prelude::*;

use crate::pricing::collateral::{DiscountPolicy, Discountable};
use crate::pricing::marketdata::{
    discount_curves, elements_view, fresh_keys, keys_view, push_fresh_discount_curves,
    ConstructedElementRequest, FxRequest, MarketDataRequest,
};
use crate::errors::QSError;
use crate::indices::{index_key, MarketIndex};

verus! {

/// Prices a credit default swap off a survival curve and a discount curve.
pub struct CdsPricer<P> {
    discount_policy: Option<P>,
}

impl<P> CdsPricer<P> {
    /// The discount policy, if one is set.
    pub closed spec fn spec_discount_policy(&self) -> Option<P> {
        self.discount_policy
    }

    /// Creates a new [`CdsPricer`] without a discount policy.
    pub fn new() -> (r: Self)
        ensures
            r.spec_discount_policy() is None,
    {
        Self { discount_policy: None }
    }

    /// Sets the discount policy used to select discount curves.
    pub fn set_discount_policy(&mut self, policy: P)
        ensures
            final(self).spec_discount_policy() == Some(policy),
    {
        self.discount_policy = Some(policy);
    }

    /// The discount policy, if one is set.
    pub fn discount_policy(&self) -> (r: Option<&P>)
        ensures
            r matches Some(p) ==> self.spec_discount_policy() == Some(*p),
            r is None <==> self.spec_discount_policy() is None,
    {
        match &self.discount_policy {
            Some(p) => Some(p),
            None => None,
        }
    }
}

impl<P: DiscountPolicy> CdsPricer<P> {
    /// The index whose curve discounts the CDS: the one the discount policy
    /// accepts for it when a policy is set, else the CDS's own discount index.
    pub fn resolve_discount_index<D: Discountable>(&self, cds: &D, cds_discount_index: &MarketIndex) -> (r: Result<MarketIndex, QSError>)
        ensures
            self.spec_discount_policy() is None ==> (r matches Ok(m) && m == *cds_discount_index),
            self.spec_discount_policy() matches Some(p) ==> r == p.spec_accept(
                cds.spec_asset_class(),
                cds.spec_currency(),
            ),
    {
        match &self.discount_policy {
            None => Ok(cds_discount_index.duplicate()),
            Some(policy) => policy.accept(cds),
        }
    }

    /// The market data needed to price a CDS discounted on `discount_index`
    /// and defaulting on `credit_index` (see [`CdsPricer::request_with_policy_indices`]),
    /// with the indices of the discount policy when one is set.
    pub fn market_data_request(&self, discount_index: &MarketIndex, credit_index: &MarketIndex) -> (r: Option<MarketDataRequest>)
        ensures
            r is Some,
            r matches Some(req) ==> req.spec_elements().len() >= 2 && req.spec_elements()[0] == (0int, index_key(*discount_index))
                && req.spec_elements()[1] == (1int, index_key(*credit_index)),
            self.spec_discount_policy() is None ==> (r matches Some(req) && req.spec_elements() == seq![
                (0int, index_key(*discount_index)),
                (1int, index_key(*credit_index)),
            ]),
            self.spec_discount_policy() matches Some(p) ==> (r matches Some(req) && req.spec_elements() == seq![
                (0int, index_key(*discount_index)),
                (1int, index_key(*credit_index)),
            ] + discount_curves(fresh_keys(seq![index_key(*discount_index)], keys_view(p.spec_discount_indices())))),
            r matches Some(req) ==> req.spec_fx() == Seq::<FxRequest>::empty(),
    {
        let policy_indices = match &self.discount_policy {
            Some(policy) => Some(policy.discount_indices()),
            None => None,
        };
        let r = Self::request_with_policy_indices(discount_index, credit_index, policy_indices);
        proof {
            assert(discount_curves(Seq::empty()) =~= Seq::empty());
        }
        Some(r)
    }

    /// The discount curve of `discount_index`, the credit curve of
    /// `credit_index`, then a discount curve for each of `policy_indices`
    /// not requested yet.
    pub fn request_with_policy_indices(discount_index: &MarketIndex, credit_index: &MarketIndex, policy_indices: Option<Vec<MarketIndex>>) -> (r: MarketDataRequest)
        ensures
            r.spec_elements() == seq![
                (0int, index_key(*discount_index)),
                (1int, index_key(*credit_index)),
            ] + discount_curves(
                match policy_indices {
                    Some(v) => fresh_keys(seq![index_key(*discount_index)], keys_view(v@)),
                    None => Seq::empty(),
                },
            ),
            r.spec_fx() == Seq::<FxRequest>::empty(),
    {
        let mut elements: Vec<ConstructedElementRequest> = Vec::new();
        elements.push(ConstructedElementRequest::DiscountCurve { market_index: discount_index.duplicate() });
        elements.push(ConstructedElementRequest::CreditCurve { market_index: credit_index.duplicate() });
        let mut seen: Vec<MarketIndex> = Vec::new();
        seen.push(discount_index.duplicate());
        proof {
            assert(keys_view(seen@) =~= seq![index_key(*discount_index)]);
            assert(elements_view(elements@) =~= seq![
                (0int, index_key(*discount_index)),
                (1int, index_key(*credit_index)),
            ]);
        }
        match &policy_indices {
            Some(v) => push_fresh_discount_curves(&mut elements, &mut seen, v),
            None => {
                assert(elements_view(elements@) =~= elements_view(elements@) + discount_curves(Seq::empty()));
            },
        }
        MarketDataRequest::default().with_constructed_elements_request(elements)
    }
}

impl<P> Default for CdsPricer<P> {
    fn default() -> (r: Self)
        ensures
            r.spec_discount_policy() is None,
    {
        Self::new()
    }
}

} // verus!
