//! Prices European equity options by Monte Carlo under Black dynamics.
use vstd::prelude::*;

use crate::errors::QSError;
use crate::indices::{index_key, MarketIndex};
use crate::pricing::collateral::{policy_acceptance, DiscountPolicy, Discountable};
use crate::pricing::marketdata::{elements_view, ConstructedElementRequest, FxRequest, MarketDataRequest};

verus! {

/// Prices European equity options by Monte Carlo under Black dynamics.
pub struct BlackMCEuropeanOptionPricer<P> {
    discount_policy: Option<P>,
}

impl<P> BlackMCEuropeanOptionPricer<P> {
    /// The discount policy, if one is set.
    pub closed spec fn spec_discount_policy(&self) -> Option<P> {
        self.discount_policy
    }

    /// Creates a new [`BlackMCEuropeanOptionPricer`] without a discount policy.
    pub fn new() -> (r: Self)
        ensures
            r.spec_discount_policy() is None,
    {
        Self { discount_policy: None }
    }

    /// Sets the discount policy used to select discount curves.
    pub fn set_discount_policy(&mut self, policy: P)
        ensures
            final(self).spec_discount_policy() == Some(policy),
    {
        self.discount_policy = Some(policy);
    }

    /// The discount policy, if one is set.
    pub fn discount_policy(&self) -> (r: Option<&P>)
        ensures
            r matches Some(p) ==> self.spec_discount_policy() == Some(*p),
            r is None <==> self.spec_discount_policy() is None,
    {
        match &self.discount_policy {
            Some(p) => Some(p),
            None => None,
        }
    }
}

impl<P> Default for BlackMCEuropeanOptionPricer<P> {
    fn default() -> (r: Self)
        ensures
            r.spec_discount_policy() is None,
    {
        Self::new()
    }
}


impl<P: DiscountPolicy> BlackMCEuropeanOptionPricer<P> {
    /// The market data needed to price an option on `market_index` (see
    /// [`BlackMCEuropeanOptionPricer::request_with_collateral`]), with the
    /// index the discount policy accepts for the option when a policy is set.
    pub fn market_data_request<D: Discountable>(&self, option: &D, market_index: &MarketIndex) -> (r: Option<MarketDataRequest>)
        ensures
            r matches Some(req) ==> req.spec_elements().len() >= 2 && req.spec_elements()[0] == (
                3int,
                index_key(*market_index),
            ) && req.spec_elements()[1] == (0int, index_key(*market_index)),
            self.spec_discount_policy() is None ==> (r matches Some(req) && req.spec_elements() == seq![
                (3int, index_key(*market_index)),
                (0int, index_key(*market_index)),
            ]),
            (r is None) <==> (policy_acceptance(self.spec_discount_policy(), *option) matches Some(Err(_))),
            r matches Some(req) ==> req.spec_fx() == Seq::<FxRequest>::empty() && req.spec_elements() == seq![
                (3int, index_key(*market_index)),
                (0int, index_key(*market_index)),
            ] + match policy_acceptance(self.spec_discount_policy(), *option) {
                Some(Ok(c)) => if index_key(c) != index_key(*market_index) {
                    seq![(0int, index_key(c))]
                } else {
                    Seq::empty()
                },
                _ => Seq::empty(),
            },
    {
        let accepted = match &self.discount_policy {
            Some(policy) => Some(policy.accept(option)),
            None => None,
        };
        Self::request_with_collateral(market_index, accepted)
    }

    /// The simulation and the discount curve of `market_index`, and the
    /// discount curve of the collateral index when the policy accepted one
    /// that differs from `market_index`; `None` when the policy rejected the
    /// option.
    pub fn request_with_collateral(market_index: &MarketIndex, accepted: Option<Result<MarketIndex, QSError>>) -> (r: Option<MarketDataRequest>)
        ensures
            (r is None) <==> (accepted matches Some(Err(_))),
            r matches Some(req) ==> req.spec_fx() == Seq::<FxRequest>::empty() && req.spec_elements() == seq![
                (3int, index_key(*market_index)),
                (0int, index_key(*market_index)),
            ] + match accepted {
                Some(Ok(c)) => if index_key(c) != index_key(*market_index) {
                    seq![(0int, index_key(c))]
                } else {
                    Seq::empty()
                },
                _ => Seq::empty(),
            },
    {
        let mut elements: Vec<ConstructedElementRequest> = Vec::new();
        elements.push(ConstructedElementRequest::Simulation { market_index: market_index.duplicate() });
        elements.push(ConstructedElementRequest::DiscountCurve { market_index: market_index.duplicate() });
        proof {
            assert(elements_view(elements@) =~= seq![
                (3int, index_key(*market_index)),
                (0int, index_key(*market_index)),
            ]);
        }
        match accepted {
            None => {
                assert(elements_view(elements@) =~= elements_view(elements@) + Seq::empty());
            },
            Some(Err(_)) => {
                return None;
            },
            Some(Ok(c)) => {
                if !c.same_as(market_index) {
                    let ghost before = elements_view(elements@);
                    elements.push(ConstructedElementRequest::DiscountCurve { market_index: c });
                    assert(elements_view(elements@) =~= before + seq![(0int, index_key(c))]);
                } else {
                    assert(elements_view(elements@) =~= elements_view(elements@) + Seq::empty());
                }
            },
        }
        Some(MarketDataRequest::default().with_constructed_elements_request(elements))
    }
}

} // verus!
