//! A model that reads market data straight from a market store.
use vstd::prelude::*;

use crate::currencies::Currency;
use crate::rates::traits::HasReferenceDate;
use crate::time::Date;

verus! {

/// Where a discount factor for a date comes from.
#[derive(Clone, Copy, Debug, PartialEq, Eq, Structural)]
pub enum DiscountFactorSource {
    /// A date before the reference date: the discount factor is zero.
    Zero,
    /// The reference date itself: the discount factor is one.
    One,
    /// A later date: the discount factor of the index's term structure.
    Curve,
}

/// # `SimpleModel`
/// A simple model that provides market data based on the current market state
/// of a market store `M`.
///
/// ## Parameters
/// * `market_store` - The market store.
/// * `transform_currencies` - If true, the model transforms currencies to the local currency of the market store.
pub struct SimpleModel<'a, M> {
    market_store: &'a M,
    transform_currencies: bool,
}

impl<'a, M> SimpleModel<'a, M> {
    /// The market store.
    pub closed spec fn spec_market_store(&self) -> M {
        *self.market_store
    }

    /// Whether currencies are transformed to the local currency.
    pub closed spec fn spec_transform_currencies(&self) -> bool {
        self.transform_currencies
    }

    /// Creates a new `SimpleModel` with currency transformation disabled.
    pub fn new(market_store: &'a M) -> (r: Self)
        ensures
            r.spec_market_store() == *market_store,
            !r.spec_transform_currencies(),
    {
        Self { market_store, transform_currencies: false }
    }

    /// Enables or disables currency transformation to the local currency.
    pub fn with_transform_currencies(self, flag: bool) -> (r: Self)
        ensures
            r.spec_market_store() == self.spec_market_store(),
            r.spec_transform_currencies() == flag,
    {
        Self { market_store: self.market_store, transform_currencies: flag }
    }

    /// Whether currencies are transformed to the local currency.
    pub fn transform_currencies(&self) -> (r: bool)
        ensures
            r == self.spec_transform_currencies(),
    {
        self.transform_currencies
    }
}

impl<'a, M: HasReferenceDate> SimpleModel<'a, M> {
    /// The reference date of the market store.
    pub fn reference_date(&self) -> (r: Date)
        ensures
            r == self.spec_market_store().spec_reference_date(),
    {
        self.market_store.reference_date()
    }

    /// Where the discount factor for `date` comes from: zero before the
    /// reference date, one on it, the term structure after it.
    pub fn discount_factor_source(&self, date: Date) -> (r: DiscountFactorSource)
        ensures
            r == if date.serial() < self.spec_market_store().spec_reference_date().serial() {
                DiscountFactorSource::Zero
            } else if date.serial() == self.spec_market_store().spec_reference_date().serial() {
                DiscountFactorSource::One
            } else {
                DiscountFactorSource::Curve
            },
    {
        let ref_date = self.market_store.reference_date();
        if date.is_before(ref_date) {
            DiscountFactorSource::Zero
        } else if ref_date.is_before(date) {
            DiscountFactorSource::Curve
        } else {
            DiscountFactorSource::One
        }
    }

    /// Whether a forward rate ending at `end_date` is read from the index: a
    /// period that ends on or before the reference date has a zero rate.
    pub fn forward_rate_from_index(&self, end_date: Date) -> (r: bool)
        ensures
            r == (end_date.serial() > self.spec_market_store().spec_reference_date().serial()),
    {
        self.market_store.reference_date().is_before(end_date)
    }
}

impl<'a, M> SimpleModel<'a, M> {
    /// The currencies of an exchange rate request for `first` against
    /// `second`: without a second currency, the local currency of the market
    /// store when currencies are transformed, else `first` itself.
    pub fn fx_currencies(&self, first: Currency, second: Option<Currency>, local: Currency) -> (r: (Currency, Currency))
        ensures
            r == (first, match second {
                Some(c) => c,
                None => if self.spec_transform_currencies() {
                    local
                } else {
                    first
                },
            }),
    {
        let other = match second {
            Some(c) => c,
            None => if self.transform_currencies {
                local
            } else {
                first
            },
        };
        (first, other)
    }
}

} // verus!
