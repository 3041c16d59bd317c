//! Rate definitions.
use vstd::prelude::*;

use super::enums::Compounding;
use crate::time::{DayCounter, Frequency};

verus! {

/// # `RateDefinition`
/// Day counter, compounding and frequency that define how a rate accrues.
#[derive(Debug, Clone, Copy, PartialEq, Eq, Hash, Structural)]
pub struct RateDefinition {
    day_counter: DayCounter,
    compounding: Compounding,
    frequency: Frequency,
}

impl View for RateDefinition {
    type V = (DayCounter, Compounding, Frequency);

    closed spec fn view(&self) -> (DayCounter, Compounding, Frequency) {
        (self.day_counter, self.compounding, self.frequency)
    }
}

impl RateDefinition {
    /// Creates a new `RateDefinition` with the given day counter, compounding and frequency.
    pub fn new(day_counter: DayCounter, compounding: Compounding, frequency: Frequency) -> (r:
        Self)
        ensures
            r@ == (day_counter, compounding, frequency),
    {
        Self { day_counter, compounding, frequency }
    }

    /// Returns the compounding method of this rate definition.
    pub fn compounding(&self) -> (r: Compounding)
        ensures
            r == self@.1,
    {
        self.compounding
    }

    /// Returns the frequency of this rate definition.
    pub fn frequency(&self) -> (r: Frequency)
        ensures
            r == self@.2,
    {
        self.frequency
    }

    /// Returns the day counter of this rate definition.
    pub fn day_counter(&self) -> (r: DayCounter)
        ensures
            r == self@.0,
    {
        self.day_counter
    }
}

impl Default for RateDefinition {
    /// Actual/360, simple compounding, annual frequency.
    fn default() -> (r: Self)
        ensures
            r@ == (DayCounter::Actual360, Compounding::Simple, Frequency::Annual),
    {
        Self::new(DayCounter::Actual360, Compounding::Simple, Frequency::Annual)
    }
}

} // verus!
