//! Evaluation of calibration instruments within one bootstrap step.
use vstd::prelude::*;

verus! {

/// Evaluates the calibration instruments of one bootstrap step `S` (the trial
/// curve, the already solved curves, the discount policy and the FX store).
pub struct BootstrapStepEvaluation<'a, S> {
    step: &'a S,
}

impl<'a, S> BootstrapStepEvaluation<'a, S> {
    /// The bootstrap step.
    pub closed spec fn spec_step(&self) -> S {
        *self.step
    }

    /// Creates a new evaluator from a bootstrap step.
    pub fn new(step: &'a S) -> (r: Self)
        ensures
            r.spec_step() == *step,
    {
        Self { step }
    }

    /// The bootstrap step.
    pub fn step(&self) -> (r: &'a S)
        ensures
            *r == self.spec_step(),
    {
        self.step
    }
}

} // verus!
