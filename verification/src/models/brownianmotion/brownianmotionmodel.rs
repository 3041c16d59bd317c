//! Brownian motion (GBM / Black-Scholes) model parameters.
use vstd::prelude::*;

verus! {

/// Brownian Motion (GBM / Black-Scholes) model: spot, risk-free rate,
/// volatility function and optional continuous dividend rate. The scalar type
/// `T` and the volatility function `V` are chosen by the caller.
pub struct BrownianMotion<T, V> {
    spot: T,
    rate: T,
    vol_func: V,
    dividend_rate: Option<T>,
}

impl<T: Copy, V> BrownianMotion<T, V> {
    /// The (spot, rate, dividend rate) parameters.
    pub closed spec fn spec_params(&self) -> (T, T, Option<T>) {
        (self.spot, self.rate, self.dividend_rate)
    }

    /// The volatility function.
    pub closed spec fn spec_vol_func(&self) -> V {
        self.vol_func
    }

    /// Creates a new [`BrownianMotion`].
    pub fn new(spot: T, rate: T, vol_func: V, dividend_rate: Option<T>) -> (r: Self)
        ensures
            r.spec_params() == (spot, rate, dividend_rate),
            r.spec_vol_func() == vol_func,
    {
        Self { spot, rate, vol_func, dividend_rate }
    }

    /// Returns the spot price.
    pub fn spot(&self) -> (r: T)
        ensures
            r == self.spec_params().0,
    {
        self.spot
    }

    /// Returns the risk-free rate.
    pub fn rate(&self) -> (r: T)
        ensures
            r == self.spec_params().1,
    {
        self.rate
    }

    /// Returns the continuous dividend rate.
    pub fn dividend_rate(&self) -> (r: Option<&T>)
        ensures
            r matches Some(d) ==> self.spec_params().2 == Some(*d),
            r is None <==> self.spec_params().2 is None,
    {
        match &self.dividend_rate {
            Some(d) => Some(d),
            None => None,
        }
    }

    /// Returns the volatility function.
    pub fn vol_func(&self) -> (r: &V)
        ensures
            *r == self.spec_vol_func(),
    {
        &self.vol_func
    }
}

} // verus!
