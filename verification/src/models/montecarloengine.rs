//! Monte Carlo engines.
use vstd::prelude::*;

verus! {

/// # MonteCarloEngine
/// A Monte Carlo model that simulates a path of market data.
pub trait MonteCarloEngine {
    /// The market data produced at each step of a path.
    type MarketData;

    fn simulate_path(&self) -> Option<Vec<Self::MarketData>>;
}

} // verus!
