//! Credit curve (hazard-rate) configuration.
use vstd::prelude::*;

use super::curveconfiguration::ids_view;
use crate::currencies::Currency;
use crate::indices::MarketIndex;
use crate::math::Interpolator;
use crate::time::{DayCounter, Frequency};

verus! {

/// Default premium accrual day counter.
pub fn default_day_counter() -> (r: DayCounter)
    ensures
        r == DayCounter::Actual360,
{
    DayCounter::Actual360
}

/// Default premium payment frequency.
pub fn default_premium_frequency() -> (r: Frequency)
    ensures
        r == Frequency::Quarterly,
{
    Frequency::Quarterly
}

/// Default interpolation on survival probabilities.
pub fn default_interpolator() -> (r: Interpolator)
    ensures
        r == Interpolator::LogLinear,
{
    Interpolator::LogLinear
}

/// Extrapolation beyond the last pillar is allowed by default.
pub fn default_enable_extrapolation() -> (r: bool)
    ensures
        r,
{
    true
}

/// Configuration for bootstrapping one credit (survival) curve; `T` is the
/// type of the recovery rate.
pub struct CreditCurveConfiguration<T> {
    market_index: MarketIndex,
    currency: Currency,
    discount_index: MarketIndex,
    recovery: T,
    day_counter: DayCounter,
    premium_frequency: Frequency,
    interpolator: Interpolator,
    enable_extrapolation: bool,
    quotes: Vec<String>,
}

impl<T: Copy> CreditCurveConfiguration<T> {
    /// (credit index, currency, discount index, recovery).
    pub closed spec fn spec_terms(&self) -> (MarketIndex, Currency, MarketIndex, T) {
        (self.market_index, self.currency, self.discount_index, self.recovery)
    }

    /// (day counter, premium frequency, interpolator, extrapolation).
    pub closed spec fn spec_conventions(&self) -> (DayCounter, Frequency, Interpolator, bool) {
        (self.day_counter, self.premium_frequency, self.interpolator, self.enable_extrapolation)
    }

    /// The CDS par-spread quote identifiers.
    pub closed spec fn spec_quotes(&self) -> Seq<Seq<char>> {
        ids_view(self.quotes@)
    }

    /// Creates a new credit curve configuration with the default conventions.
    pub fn new(
        market_index: MarketIndex,
        currency: Currency,
        discount_index: MarketIndex,
        recovery: T,
        quotes: Vec<String>,
    ) -> (r: Self)
        ensures
            r.spec_terms() == (market_index, currency, discount_index, recovery),
            r.spec_conventions() == (
                DayCounter::Actual360,
                Frequency::Quarterly,
                Interpolator::LogLinear,
                true,
            ),
            r.spec_quotes() == ids_view(quotes@),
    {
        Self {
            market_index,
            currency,
            discount_index,
            recovery,
            day_counter: default_day_counter(),
            premium_frequency: default_premium_frequency(),
            interpolator: default_interpolator(),
            enable_extrapolation: default_enable_extrapolation(),
            quotes,
        }
    }

    /// Sets the premium day counter.
    pub fn with_day_counter(self, day_counter: DayCounter) -> (r: Self)
        ensures
            r.spec_terms() == self.spec_terms(),
            r.spec_quotes() == self.spec_quotes(),
            r.spec_conventions() == (
                day_counter,
                self.spec_conventions().1,
                self.spec_conventions().2,
                self.spec_conventions().3,
            ),
    {
        Self { day_counter, ..self }
    }

    /// Sets the premium payment frequency.
    pub fn with_premium_frequency(self, premium_frequency: Frequency) -> (r: Self)
        ensures
            r.spec_terms() == self.spec_terms(),
            r.spec_quotes() == self.spec_quotes(),
            r.spec_conventions() == (
                self.spec_conventions().0,
                premium_frequency,
                self.spec_conventions().2,
                self.spec_conventions().3,
            ),
    {
        Self { premium_frequency, ..self }
    }

    /// Returns the credit curve index.
    pub fn market_index(&self) -> (r: &MarketIndex)
        ensures
            *r == self.spec_terms().0,
    {
        &self.market_index
    }

    /// Returns the currency of the CDS quotes.
    pub fn currency(&self) -> (r: Currency)
        ensures
            r == self.spec_terms().1,
    {
        self.currency
    }

    /// Returns the discount curve index.
    pub fn discount_index(&self) -> (r: &MarketIndex)
        ensures
            *r == self.spec_terms().2,
    {
        &self.discount_index
    }

    /// Returns the assumed recovery rate.
    pub fn recovery(&self) -> (r: T)
        ensures
            r == self.spec_terms().3,
    {
        self.recovery
    }

    /// Returns the premium day counter.
    pub fn day_counter(&self) -> (r: DayCounter)
        ensures
            r == self.spec_conventions().0,
    {
        self.day_counter
    }

    /// Returns the premium frequency.
    pub fn premium_frequency(&self) -> (r: Frequency)
        ensures
            r == self.spec_conventions().1,
    {
        self.premium_frequency
    }

    /// Returns the interpolator.
    pub fn interpolator(&self) -> (r: Interpolator)
        ensures
            r == self.spec_conventions().2,
    {
        self.interpolator
    }

    /// Returns whether extrapolation is enabled.
    pub fn enable_extrapolation(&self) -> (r: bool)
        ensures
            r == self.spec_conventions().3,
    {
        self.enable_extrapolation
    }

    /// Returns the quote identifiers.
    pub fn quotes(&self) -> (r: &Vec<String>)
        ensures
            ids_view(r@) == self.spec_quotes(),
    {
        &self.quotes
    }
}

} // verus!
