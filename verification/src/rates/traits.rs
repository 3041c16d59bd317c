//! Traits shared by rate objects.
use vstd::prelude::*;

use crate::time::Date;

verus! {

/// # HasReferenceDate
/// Implement this trait for a struct that has a reference date.
pub trait HasReferenceDate {
    /// The reference date, as a value of the specification.
    spec fn spec_reference_date(&self) -> Date;

    /// Returns the reference date for this object.
    fn reference_date(&self) -> (r: Date)
        ensures
            r == self.spec_reference_date(),
    ;
}

} // verus!
