//! Traits that an interest rate index implements.
use vstd::prelude::*;

use crate::errors::QSError;
use crate::rates::traits::HasReferenceDate;
use crate::time::{Date, Period};

verus! {

/// # AdvanceInterestRateIndexInTime
/// Returns a representation of the index as it would be after the given
/// period / at the given date.
pub trait AdvanceInterestRateIndexInTime: Sized {
    /// The outcome of advancing by `period`, as a value of the specification.
    spec fn spec_advance_to_period(&self, period: Period) -> Result<Self, QSError>;

    /// The outcome of advancing to `date`, as a value of the specification.
    spec fn spec_advance_to_date(&self, date: Date) -> Result<Self, QSError>;

    fn advance_to_period(&self, period: Period) -> (r: Result<Self, QSError>)
        ensures
            r == self.spec_advance_to_period(period),
    ;

    fn advance_to_date(&self, date: Date) -> (r: Result<Self, QSError>)
        ensures
            r == self.spec_advance_to_date(date),
    ;
}

/// # HasTenor
/// Implement this trait for a struct that holds a tenor.
pub trait HasTenor {
    fn tenor(&self) -> Period;
}

/// # HasTermStructure
/// Implement this trait for a struct that holds a term structure.
pub trait HasTermStructure {
    /// The type of the term structure the index forecasts with.
    type TermStructure;

    fn term_structure(&self) -> Result<Self::TermStructure, QSError>;
}

/// # HasName
/// Implement this trait for a struct that holds a name.
pub trait HasName {
    /// The name of the index, when it has one.
    spec fn spec_name(&self) -> Option<Seq<char>>;

    fn name(&self) -> (r: Result<String, QSError>)
        ensures
            r is Ok <==> self.spec_name() is Some,
            r matches Ok(s) ==> self.spec_name() == Some(s@),
    ;
}

/// # RelinkableTermStructure
/// Allows to link a term structure to another.
pub trait RelinkableTermStructure: HasTermStructure + Sized {
    /// The index linked to `term_structure`.
    spec fn spec_linked(self, term_structure: Self::TermStructure) -> Self;

    fn link_to(&mut self, term_structure: Self::TermStructure)
        ensures
            *final(self) == old(self).spec_linked(term_structure),
    ;
}

/// # InterestRateIndexTrait
/// Implement this trait for a struct that holds interest rate index information.
pub trait InterestRateIndexTrait: HasReferenceDate + AdvanceInterestRateIndexInTime +
    HasTermStructure + RelinkableTermStructure + HasTenor + HasName {

}

} // verus!
