//! Traits and errors of yield term structures.
use vstd::prelude::*;

use crate::errors::QSError;
use crate::rates::traits::HasReferenceDate;
use crate::time::{Date, Period};

verus! {

/// # YieldTermStructureTraitClone
/// Cloning of a term structure.
pub trait YieldTermStructureTraitClone: Sized {
    fn clone_box(&self) -> Self;
}

impl<T: Clone> YieldTermStructureTraitClone for T {
    /// A clone of the term structure, as `T::clone` makes it.
    fn clone_box(&self) -> (r: T)
        ensures
            vstd::pervasive::cloned(*self, r),
    {
        self.clone()
    }
}

/// # AdvanceTermStructureInTime
/// Returns a representation of the term structure as it would be after the
/// given period / at the given date.
pub trait AdvanceTermStructureInTime: Sized {
    /// The outcome of advancing by `period`, as a value of the specification.
    spec fn spec_advance_to_period(&self, period: Period) -> Result<Self, AdvanceInTimeError>;

    /// The outcome of advancing to `date`, as a value of the specification.
    spec fn spec_advance_to_date(&self, date: Date) -> Result<Self, AdvanceInTimeError>;

    fn advance_to_period(&self, period: Period) -> (r: Result<Self, AdvanceInTimeError>)
        ensures
            r == self.spec_advance_to_period(period),
    ;

    fn advance_to_date(&self, date: Date) -> (r: Result<Self, AdvanceInTimeError>)
        ensures
            r == self.spec_advance_to_date(date),
    ;
}

/// The outcome of advancing a pair of curves, base curve first: the first
/// error met, or both advanced curves.
pub open spec fn advance_both<S, B>(base: Result<B, AdvanceInTimeError>, spread: Result<S, AdvanceInTimeError>) -> Result<(S, B), AdvanceInTimeError> {
    match base {
        Err(e) => Err(e),
        Ok(b) => match spread {
            Err(e) => Err(e),
            Ok(s) => Ok((s, b)),
        },
    }
}

/// Errors when advancing a term structure in time.
#[derive(Debug)]
pub enum AdvanceInTimeError {
    /// The target date is not valid for the term structure.
    InvalidDate,
    /// A yield computation failed.
    YieldProviderError(QSError),
    /// The advanced term structure could not be built.
    TermStructureConstructorError(TermStructureConstructorError),
}

/// Errors when building a term structure from pillars.
#[derive(Debug, Clone, Copy, PartialEq, Eq, Structural)]
pub enum TermStructureConstructorError {
    /// Dates and discount factors should have the same size.
    DatesAndDiscountFactorsSize,
    /// Dates and rates should have the same size.
    DatesAndRatesSize,
    /// First date needs to be the reference date.
    FirstDateNeedsToBeReferenceDate,
    /// First discount factor needs to be 1.0.
    FirstDiscountFactorsNeedsToBeOne,
}

impl From<TermStructureConstructorError> for AdvanceInTimeError {
    fn from(e: TermStructureConstructorError) -> (r: AdvanceInTimeError) {
        AdvanceInTimeError::TermStructureConstructorError(e)
    }
}

impl vstd::std_specs::convert::FromSpecImpl<TermStructureConstructorError> for AdvanceInTimeError {
    open spec fn obeys_from_spec() -> bool {
        true
    }

    open spec fn from_spec(e: TermStructureConstructorError) -> AdvanceInTimeError {
        AdvanceInTimeError::TermStructureConstructorError(e)
    }
}

/// # YieldTermStructureTrait
/// A yield term structure: it has a reference date, can be advanced in time
/// and cloned. (Discount factors and forward rates are floating-point
/// quantities computed outside this library.)
pub trait YieldTermStructureTrait: HasReferenceDate + YieldTermStructureTraitClone +
    AdvanceTermStructureInTime {

}

} // verus!
