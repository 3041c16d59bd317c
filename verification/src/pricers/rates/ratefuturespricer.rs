//! Prices interest rate futures from forward rates; it uses no discount policy.
use vstd::prelude::*;

use crate::indices::{index_key, MarketIndex};
use crate::pricing::marketdata::{elements_view, ConstructedElementRequest, FxRequest, MarketDataRequest};

verus! {

/// Prices interest rate futures from forward rates; it uses no discount policy.
pub struct RateFuturesPricer;

impl RateFuturesPricer {
    /// Creates a new [`RateFuturesPricer`].
    pub fn new() -> (r: Self) {
        Self
    }

    /// Ignored: the futures pricer does not use a discount policy.
    pub fn set_discount_policy<P>(&mut self, _policy: P) {
    }

    /// Always `None`: the futures pricer does not use a discount policy.
    pub fn discount_policy<P>(&self) -> (r: Option<&P>)
        ensures
            r is None,
    {
        None
    }
}


impl RateFuturesPricer {
    /// The market data needed to price a future on `market_index`: its
    /// discount curve.
    pub fn market_data_request(&self, market_index: &MarketIndex) -> (r: Option<MarketDataRequest>)
        ensures
            r matches Some(req) && req.spec_elements() == seq![(0int, index_key(*market_index))]
                && req.spec_fx() == Seq::<FxRequest>::empty(),
    {
        let mut elements: Vec<ConstructedElementRequest> = Vec::new();
        elements.push(ConstructedElementRequest::DiscountCurve { market_index: market_index.duplicate() });
        proof {
            assert(elements_view(elements@) =~= seq![(0int, index_key(*market_index))]);
        }
        Some(MarketDataRequest::default().with_constructed_elements_request(elements))
    }
}

} // verus!
