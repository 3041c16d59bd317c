//! A term structure made of a spread curve on top of a base curve (the
//! variant whose curves are owned by the structure).
use vstd::prelude::*;

use super::traits::{advance_both, AdvanceInTimeError, AdvanceTermStructureInTime, YieldTermStructureTrait};
use crate::rates::traits::HasReferenceDate;
use crate::time::{Date, Period};

verus! {

/// # MixedTermStructure
/// A term structure made with a combination of two curves:
/// `df(t) = df_spread(t) * df_base(t)`. Its reference date is the one of the
/// base curve.
#[derive(Clone)]
pub struct MixedTermStructure<S, B> {
    date_reference: Date,
    spread_curve: S,
    base_curve: B,
}

impl<S, B> MixedTermStructure<S, B> {
    /// The spread curve.
    pub closed spec fn spec_spread_curve(&self) -> S {
        self.spread_curve
    }

    /// The base curve.
    pub closed spec fn spec_base_curve(&self) -> B {
        self.base_curve
    }

    /// The reference date recorded at construction.
    pub closed spec fn spec_date_reference(&self) -> Date {
        self.date_reference
    }
}

impl<S: YieldTermStructureTrait, B: YieldTermStructureTrait> MixedTermStructure<S, B> {
    /// The structure that `new` builds from a spread and a base curve.
    pub closed spec fn spec_new(spread_curve: S, base_curve: B) -> MixedTermStructure<S, B> {
        MixedTermStructure { date_reference: base_curve.spec_reference_date(), spread_curve, base_curve }
    }

    /// Combines a spread curve with a base curve.
    pub fn new(spread_curve: S, base_curve: B) -> (r: MixedTermStructure<S, B>)
        ensures
            r == Self::spec_new(spread_curve, base_curve),
            r.spec_spread_curve() == spread_curve,
            r.spec_base_curve() == base_curve,
            r.spec_date_reference() == base_curve.spec_reference_date(),
    {
        MixedTermStructure {
            date_reference: base_curve.reference_date(),
            spread_curve,
            base_curve,
        }
    }

    /// The spread curve.
    pub fn spread_curve(&self) -> (r: &S)
        ensures
            *r == self.spec_spread_curve(),
    {
        &self.spread_curve
    }

    /// The base curve.
    pub fn base_curve(&self) -> (r: &B)
        ensures
            *r == self.spec_base_curve(),
    {
        &self.base_curve
    }
}

impl<S: YieldTermStructureTrait, B: YieldTermStructureTrait> HasReferenceDate for MixedTermStructure<
    S,
    B,
> {
    open spec fn spec_reference_date(&self) -> Date {
        self.spec_date_reference()
    }

    fn reference_date(&self) -> (r: Date) {
        self.date_reference
    }
}

impl<S: YieldTermStructureTrait, B: YieldTermStructureTrait> AdvanceTermStructureInTime for MixedTermStructure<
    S,
    B,
> {
    /// Both curves advanced to the date (the base curve first), or the first error.
    open spec fn spec_advance_to_date(&self, date: Date) -> Result<Self, AdvanceInTimeError> {
        match advance_both(
            self.spec_base_curve().spec_advance_to_date(date),
            self.spec_spread_curve().spec_advance_to_date(date),
        ) {
            Err(e) => Err(e),
            Ok((s, b)) => Ok(Self::spec_new(s, b)),
        }
    }

    /// Both curves advanced by the period (the base curve first), or the first error.
    open spec fn spec_advance_to_period(&self, period: Period) -> Result<Self, AdvanceInTimeError> {
        match advance_both(
            self.spec_base_curve().spec_advance_to_period(period),
            self.spec_spread_curve().spec_advance_to_period(period),
        ) {
            Err(e) => Err(e),
            Ok((s, b)) => Ok(Self::spec_new(s, b)),
        }
    }

    /// Advances both curves to the date.
    fn advance_to_date(&self, date: Date) -> (r: Result<Self, AdvanceInTimeError>)
        ensures
            r matches Err(e) ==> advance_both(
                self.spec_base_curve().spec_advance_to_date(date),
                self.spec_spread_curve().spec_advance_to_date(date),
            ) == Err::<(S, B), AdvanceInTimeError>(e),
            r matches Ok(c) ==> advance_both(
                self.spec_base_curve().spec_advance_to_date(date),
                self.spec_spread_curve().spec_advance_to_date(date),
            ) == Ok::<(S, B), AdvanceInTimeError>((c.spec_spread_curve(), c.spec_base_curve()))
                && c.spec_date_reference() == c.spec_base_curve().spec_reference_date(),
    {
        let base = match self.base_curve.advance_to_date(date) {
            Ok(b) => b,
            Err(e) => return Err(e),
        };
        let spread = match self.spread_curve.advance_to_date(date) {
            Ok(s) => s,
            Err(e) => return Err(e),
        };
        Ok(MixedTermStructure::new(spread, base))
    }

    /// Advances both curves by the period.
    fn advance_to_period(&self, period: Period) -> (r: Result<Self, AdvanceInTimeError>)
        ensures
            r matches Err(e) ==> advance_both(
                self.spec_base_curve().spec_advance_to_period(period),
                self.spec_spread_curve().spec_advance_to_period(period),
            ) == Err::<(S, B), AdvanceInTimeError>(e),
            r matches Ok(c) ==> advance_both(
                self.spec_base_curve().spec_advance_to_period(period),
                self.spec_spread_curve().spec_advance_to_period(period),
            ) == Ok::<(S, B), AdvanceInTimeError>((c.spec_spread_curve(), c.spec_base_curve()))
                && c.spec_date_reference() == c.spec_base_curve().spec_reference_date(),
    {
        let base = match self.base_curve.advance_to_period(period) {
            Ok(b) => b,
            Err(e) => return Err(e),
        };
        let spread = match self.spread_curve.advance_to_period(period) {
            Ok(s) => s,
            Err(e) => return Err(e),
        };
        Ok(MixedTermStructure::new(spread, base))
    }
}

impl<S: YieldTermStructureTrait + Clone, B: YieldTermStructureTrait + Clone> YieldTermStructureTrait for MixedTermStructure<
    S,
    B,
> {

}

} // verus!
