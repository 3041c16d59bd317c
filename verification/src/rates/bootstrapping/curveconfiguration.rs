//! Configuration of one curve to bootstrap.
use vstd::prelude::*;

use crate::indices::MarketIndex;
use crate::math::Interpolator;
use crate::time::DayCounter;

verus! {

/// The identifiers as character sequences.
pub open spec fn ids_view(v: Seq<String>) -> Seq<Seq<char>> {
    v.map_values(|s: String| s@)
}

/// Describes one curve to bootstrap: its index, conventions, and the
/// identifiers of its pillar quotes.
pub struct CurveConfiguration {
    market_index: MarketIndex,
    day_counter: DayCounter,
    interpolator: Interpolator,
    enable_extrapolation: bool,
    quotes: Vec<String>,
}

impl CurveConfiguration {
    /// The curve index.
    pub closed spec fn spec_market_index(&self) -> MarketIndex {
        self.market_index
    }

    /// The (day counter, interpolator, extrapolation) conventions.
    pub closed spec fn spec_conventions(&self) -> (DayCounter, Interpolator, bool) {
        (self.day_counter, self.interpolator, self.enable_extrapolation)
    }

    /// The pillar quote identifiers.
    pub closed spec fn spec_quotes(&self) -> Seq<Seq<char>> {
        ids_view(self.quotes@)
    }

    /// Creates a curve configuration.
    pub fn new(
        market_index: MarketIndex,
        day_counter: DayCounter,
        interpolator: Interpolator,
        enable_extrapolation: bool,
        quotes: Vec<String>,
    ) -> (r: Self)
        ensures
            r.spec_market_index() == market_index,
            r.spec_conventions() == (day_counter, interpolator, enable_extrapolation),
            r.spec_quotes() == ids_view(quotes@),
    {
        Self { market_index, day_counter, interpolator, enable_extrapolation, quotes }
    }

    /// Returns the curve index.
    pub fn market_index(&self) -> (r: &MarketIndex)
        ensures
            *r == self.spec_market_index(),
    {
        &self.market_index
    }

    /// Returns the day counter.
    pub fn day_counter(&self) -> (r: DayCounter)
        ensures
            r == self.spec_conventions().0,
    {
        self.day_counter
    }

    /// Returns the interpolator.
    pub fn interpolator(&self) -> (r: Interpolator)
        ensures
            r == self.spec_conventions().1,
    {
        self.interpolator
    }

    /// Returns whether extrapolation is enabled.
    pub fn enable_extrapolation(&self) -> (r: bool)
        ensures
            r == self.spec_conventions().2,
    {
        self.enable_extrapolation
    }

    /// Returns the pillar quote identifiers.
    pub fn quotes(&self) -> (r: &Vec<String>)
        ensures
            ids_view(r@) == self.spec_quotes(),
    {
        &self.quotes
    }
}

} // verus!
