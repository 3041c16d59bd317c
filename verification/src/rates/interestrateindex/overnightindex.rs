//! Overnight indices: fixings (compounded index values) by date and a
//! forecasting term structure.
use vstd::prelude::*;

use super::iborindex::{distinct_dates, fixing_map, fixings_from_pairs, fixings_of_pairs, insert_fixing, lemma_fixing_map_at};
use crate::errors::QSError;
use crate::rates::enums::Compounding;
use crate::rates::interestrate::RateDefinition;
use crate::rates::traits::HasReferenceDate;
use crate::time::{Date, DayCounter, Frequency, Period, TimeUnit};

verus! {

/// Where an overnight forward rate from a start to an end date comes from.
#[derive(Clone, Copy, Debug, PartialEq)]
pub enum OvernightRateSource<V> {
    /// A period across the reference date: the fixing at the reference date,
    /// carried to the end with the term structure's discount factor.
    Mixed { reference_fixing: V },
    /// A past period: the fixings at its start and end.
    Past { start_fixing: V, end_fixing: V },
    /// A future period: forecast with the term structure.
    Forecast,
}

/// # OvernightIndex
/// An overnight index: its rate definition, fixings (values of type `V`) by
/// date, the term structure (of type `S`) that forecasts it, and its
/// reference date. Its tenor is one day.
pub struct OvernightIndex<V, S> {
    fixings: Vec<(Date, V)>,
    term_structure: Option<S>,
    rate_definition: RateDefinition,
    tenor: Period,
    reference_date: Date,
}

impl<V, S> OvernightIndex<V, S> {
    #[verifier::type_invariant]
    spec fn inv(self) -> bool {
        distinct_dates(self.fixings@)
    }

    /// The fixings by date.
    pub closed spec fn spec_fixings(&self) -> Map<Date, V> {
        fixing_map(self.fixings@)
    }

    /// The forecasting term structure, if one is set.
    pub closed spec fn spec_term_structure(&self) -> Option<S> {
        self.term_structure
    }

    /// The rate definition.
    pub closed spec fn spec_rate_definition(&self) -> RateDefinition {
        self.rate_definition
    }

    /// The tenor.
    pub closed spec fn spec_tenor(&self) -> Period {
        self.tenor
    }

    /// The reference date.
    pub closed spec fn spec_date(&self) -> Date {
        self.reference_date
    }

    /// An index at `reference_date` with no fixings, no term structure, the
    /// default rate definition and a one-day tenor.
    pub fn new(reference_date: Date) -> (r: Self)
        ensures
            r.spec_date() == reference_date,
            r.spec_fixings() == Map::<Date, V>::empty(),
            r.spec_term_structure() is None,
            r.spec_rate_definition()@ == (DayCounter::Actual360, Compounding::Simple, Frequency::Annual),
            r.spec_tenor() == (Period { length: 1, units: TimeUnit::Days }),
    {
        let r = OvernightIndex {
            fixings: Vec::new(),
            term_structure: None,
            rate_definition: RateDefinition::default(),
            tenor: Period::new(1, TimeUnit::Days),
            reference_date,
        };
        assert(fixing_map(r.fixings@) =~= Map::<Date, V>::empty());
        r
    }

    /// The rate definition.
    pub fn rate_definition(&self) -> (r: RateDefinition)
        ensures
            r == self.spec_rate_definition(),
    {
        self.rate_definition
    }

    /// The tenor.
    pub fn tenor(&self) -> (r: Period)
        ensures
            r == self.spec_tenor(),
    {
        self.tenor
    }

    /// The forecasting term structure, if one is set.
    pub fn term_structure(&self) -> (r: Option<&S>)
        ensures
            r == match self.spec_term_structure() {
                Some(s) => Some(&s),
                None => None,
            },
    {
        match &self.term_structure {
            Some(s) => Some(s),
            None => None,
        }
    }

    /// The index with the given rate definition.
    pub fn with_rate_definition(self, rate_definition: RateDefinition) -> (r: Self)
        ensures
            r.spec_rate_definition() == rate_definition,
            r.spec_fixings() == self.spec_fixings(),
            r.spec_term_structure() == self.spec_term_structure(),
            r.spec_tenor() == self.spec_tenor(),
            r.spec_date() == self.spec_date(),
    {
        proof {
            use_type_invariant(&self);
        }
        OvernightIndex { rate_definition, ..self }
    }

    /// The index with the given fixings in place of its own: the pairs are
    /// taken in order, a later pair for a date replacing an earlier one.
    pub fn with_fixings(self, fixings: Vec<(Date, V)>) -> (r: Self)
        ensures
            r.spec_rate_definition() == self.spec_rate_definition(),
            r.spec_fixings() == fixings_of_pairs(fixings@),
            r.spec_term_structure() == self.spec_term_structure(),
            r.spec_tenor() == self.spec_tenor(),
            r.spec_date() == self.spec_date(),
    {
        let entries = fixings_from_pairs(fixings);
        OvernightIndex { fixings: entries, ..self }
    }

    /// The index with the given forecasting term structure.
    pub fn with_term_structure(self, term_structure: S) -> (r: Self)
        ensures
            r.spec_rate_definition() == self.spec_rate_definition(),
            r.spec_fixings() == self.spec_fixings(),
            r.spec_term_structure() == Some(term_structure),
            r.spec_tenor() == self.spec_tenor(),
            r.spec_date() == self.spec_date(),
    {
        proof {
            use_type_invariant(&self);
        }
        OvernightIndex { term_structure: Some(term_structure), ..self }
    }

    /// Adds (or replaces) the fixing of `date`.
    pub fn add_fixing(&mut self, date: Date, rate: V)
        ensures
            final(self).spec_fixings() == old(self).spec_fixings().insert(date, rate),
            final(self).spec_rate_definition() == old(self).spec_rate_definition(),
            final(self).spec_term_structure() == old(self).spec_term_structure(),
            final(self).spec_tenor() == old(self).spec_tenor(),
            final(self).spec_date() == old(self).spec_date(),
    {
        proof {
            use_type_invariant(&*self);
        }
        let mut entries: Vec<(Date, V)> = Vec::new();
        std::mem::swap(&mut entries, &mut self.fixings);
        self.fixings = insert_fixing(entries, date, rate);
    }
}

/// The fixing of `date` in `m`, or the error that it is missing.
pub open spec fn fixing_at<V>(m: Map<Date, V>, date: Date) -> Result<V, QSError> {
    if m.contains_key(date) {
        Ok(m[date])
    } else {
        Err(QSError::NoFixingRate(date))
    }
}

impl<V: Copy, S> OvernightIndex<V, S> {
    /// The fixing of `date`, if there is one.
    pub fn fixing(&self, date: Date) -> (r: Option<V>)
        ensures
            r == if self.spec_fixings().contains_key(date) {
                Some(self.spec_fixings()[date])
            } else {
                None
            },
    {
        proof {
            use_type_invariant(self);
        }
        let mut i: usize = 0;
        while i < self.fixings.len()
            invariant
                i <= self.fixings@.len(),
                distinct_dates(self.fixings@),
                forall|j: int| 0 <= j < i ==> self.fixings@[j].0 != date,
            decreases self.fixings@.len() - i,
        {
            if self.fixings[i].0 == date {
                proof {
                    lemma_fixing_map_at(self.fixings@, i as int);
                }
                return Some(self.fixings[i].1);
            }
            i = i + 1;
        }
        None
    }

    /// The fixings at the start and at the end of a past period, from which
    /// its average rate is implied.
    pub fn average_rate_fixings(&self, start_date: Date, end_date: Date) -> (r: Result<(V, V), QSError>)
        ensures
            r == match (fixing_at(self.spec_fixings(), start_date), fixing_at(self.spec_fixings(), end_date)) {
                (Err(e), _) => Err(e),
                (Ok(_), Err(e)) => Err(e),
                (Ok(a), Ok(b)) => Ok((a, b)),
            },
    {
        let start = match self.fixing(start_date) {
            Some(v) => v,
            None => return Err(QSError::NoFixingRate(start_date)),
        };
        let end = match self.fixing(end_date) {
            Some(v) => v,
            None => return Err(QSError::NoFixingRate(end_date)),
        };
        Ok((start, end))
    }

    /// Where the forward rate from `start_date` to `end_date` comes from: a
    /// period across the reference date compounds the reference date's
    /// fixing with the term structure; a past period uses the fixings at its
    /// ends; a future period is forecast with the term structure.
    ///
    /// ## Errors
    /// `NoFixingRate` for a missing fixing, `NoTermStructure` when a term
    /// structure is needed and none is set, and `InvalidDate` with the end
    /// date when the period neither starts before the reference date nor
    /// ends after it.
    pub fn forward_rate_source(&self, start_date: Date, end_date: Date) -> (r: Result<OvernightRateSource<V>, QSError>)
        ensures
            r == {
                let rd = self.spec_date();
                let m = self.spec_fixings();
                if start_date.serial() < rd.serial() && end_date.serial() > rd.serial() {
                    match fixing_at(m, rd) {
                        Err(e) => Err(e),
                        Ok(f) => if self.spec_term_structure() is Some {
                            Ok(OvernightRateSource::Mixed { reference_fixing: f })
                        } else {
                            Err(QSError::NoTermStructure)
                        },
                    }
                } else if start_date.serial() < rd.serial() {
                    match (fixing_at(m, start_date), fixing_at(m, end_date)) {
                        (Err(e), _) => Err(e),
                        (Ok(_), Err(e)) => Err(e),
                        (Ok(a), Ok(b)) => Ok(OvernightRateSource::Past { start_fixing: a, end_fixing: b }),
                    }
                } else if end_date.serial() > rd.serial() {
                    if self.spec_term_structure() is Some {
                        Ok(OvernightRateSource::Forecast)
                    } else {
                        Err(QSError::NoTermStructure)
                    }
                } else {
                    Err(QSError::InvalidDate(end_date))
                }
            },
    {
        let rd = self.reference_date;
        if start_date.is_before(rd) && rd.is_before(end_date) {
            let f = match self.fixing(rd) {
                Some(v) => v,
                None => return Err(QSError::NoFixingRate(rd)),
            };
            if self.term_structure.is_some() {
                Ok(OvernightRateSource::Mixed { reference_fixing: f })
            } else {
                Err(QSError::NoTermStructure)
            }
        } else if start_date.is_before(rd) {
            match self.average_rate_fixings(start_date, end_date) {
                Ok((a, b)) => Ok(OvernightRateSource::Past { start_fixing: a, end_fixing: b }),
                Err(e) => Err(e),
            }
        } else if rd.is_before(end_date) {
            if self.term_structure.is_some() {
                Ok(OvernightRateSource::Forecast)
            } else {
                Err(QSError::NoTermStructure)
            }
        } else {
            Err(QSError::InvalidDate(end_date))
        }
    }
}

impl<V, S> HasReferenceDate for OvernightIndex<V, S> {
    open spec fn spec_reference_date(&self) -> Date {
        self.spec_date()
    }

    fn reference_date(&self) -> (r: Date) {
        self.reference_date
    }
}

} // verus!
