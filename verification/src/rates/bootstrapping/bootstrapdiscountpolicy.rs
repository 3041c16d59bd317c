//! Which curve discounts the instruments of a bootstrap.
use vstd::prelude::*;

use crate::currencies::Currency;
use crate::indices::{index_key, MarketIndex};

verus! {

/// Discounting rule of a bootstrap: instruments are discounted with the curve
/// of `market_index`, the collateral curve of `currency`.
pub struct BootstrapDiscountPolicy {
    market_index: MarketIndex,
    currency: Currency,
}

impl BootstrapDiscountPolicy {
    /// The discount index.
    pub closed spec fn spec_market_index(&self) -> MarketIndex {
        self.market_index
    }

    /// The collateral currency.
    pub closed spec fn spec_currency(&self) -> Currency {
        self.currency
    }

    /// Creates a policy discounting with the curve of `market_index`
    /// (collateral in `currency`).
    pub fn new(market_index: MarketIndex, currency: Currency) -> (r: Self)
        ensures
            r.spec_market_index() == market_index,
            r.spec_currency() == currency,
    {
        Self { market_index, currency }
    }

    /// Returns the discount index.
    pub fn market_index(&self) -> (r: &MarketIndex)
        ensures
            *r == self.spec_market_index(),
    {
        &self.market_index
    }

    /// Returns the collateral currency.
    pub fn currency(&self) -> (r: Currency)
        ensures
            r == self.spec_currency(),
    {
        self.currency
    }
}

} // verus!
