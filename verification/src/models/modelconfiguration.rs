//! Monte Carlo simulation configurations.
use vstd::prelude::*;

use crate::indices::MarketIndex;
use crate::time::{DayCounter, Frequency, Period};

verus! {

/// Default number of Monte Carlo paths.
pub fn default_n_paths() -> (r: usize)
    ensures
        r == 1000,
{
    1000
}

/// Default RNG seed.
pub fn default_seed() -> (r: u64)
    ensures
        r == 42,
{
    42
}

/// Default time-step frequency.
pub fn default_frequency() -> (r: Frequency)
    ensures
        r == Frequency::Monthly,
{
    Frequency::Monthly
}

/// Default day counter for year fractions.
pub fn default_day_counter() -> (r: DayCounter)
    ensures
        r == DayCounter::Actual365,
{
    DayCounter::Actual365
}

/// Configuration for a Monte Carlo simulation driven by a model configuration `M`.
pub struct SimulationConfiguration<M> {
    market_index: MarketIndex,
    model: M,
    n_paths: usize,
    seed: u64,
    horizon: Period,
    frequency: Frequency,
    day_counter: DayCounter,
}

impl<M> SimulationConfiguration<M> {
    /// The (paths, seed, horizon, frequency, day counter) settings.
    pub closed spec fn spec_settings(&self) -> (usize, u64, Period, Frequency, DayCounter) {
        (self.n_paths, self.seed, self.horizon, self.frequency, self.day_counter)
    }

    /// The market index under which the simulation is stored.
    pub closed spec fn spec_market_index(&self) -> MarketIndex {
        self.market_index
    }

    /// The model configuration.
    pub closed spec fn spec_model(&self) -> M {
        self.model
    }

    /// Creates a new simulation configuration; year fractions use Actual/365.
    pub fn new(
        market_index: MarketIndex,
        model: M,
        n_paths: usize,
        seed: u64,
        horizon: Period,
        frequency: Frequency,
    ) -> (r: Self)
        ensures
            r.spec_market_index() == market_index,
            r.spec_model() == model,
            r.spec_settings() == (n_paths, seed, horizon, frequency, DayCounter::Actual365),
    {
        Self {
            market_index,
            model,
            n_paths,
            seed,
            horizon,
            frequency,
            day_counter: DayCounter::Actual365,
        }
    }

    /// Returns the market index under which the simulation is stored.
    pub fn market_index(&self) -> (r: &MarketIndex)
        ensures
            *r == self.spec_market_index(),
    {
        &self.market_index
    }

    /// Returns the model configuration.
    pub fn model(&self) -> (r: &M)
        ensures
            *r == self.spec_model(),
    {
        &self.model
    }

    /// Returns the number of Monte Carlo paths.
    pub fn n_paths(&self) -> (r: usize)
        ensures
            r == self.spec_settings().0,
    {
        self.n_paths
    }

    /// Returns the RNG seed.
    pub fn seed(&self) -> (r: u64)
        ensures
            r == self.spec_settings().1,
    {
        self.seed
    }

    /// Returns the simulation horizon.
    pub fn horizon(&self) -> (r: Period)
        ensures
            r == self.spec_settings().2,
    {
        self.horizon
    }

    /// Returns the time-step frequency.
    pub fn frequency(&self) -> (r: Frequency)
        ensures
            r == self.spec_settings().3,
    {
        self.frequency
    }

    /// Returns the day counter used for year fractions.
    pub fn day_counter(&self) -> (r: DayCounter)
        ensures
            r == self.spec_settings().4,
    {
        self.day_counter
    }
}

} // verus!
