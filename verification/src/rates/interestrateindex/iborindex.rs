//! IBOR indices: a tenor, a rate definition, past fixings and a forecasting
//! term structure.
use vstd::prelude::*;

use crate::errors::QSError;
use crate::rates::interestrate::RateDefinition;
use crate::rates::traits::HasReferenceDate;
use crate::rates::enums::Compounding;
use crate::time::{Date, DayCounter, Frequency, Period, TimeUnit};

verus! {

/// The fixings by date, for an association list whose dates are pairwise
/// distinct.
pub open spec fn fixing_map<V>(s: Seq<(Date, V)>) -> Map<Date, V> {
    Map::new(
        |d: Date| exists|i: int| 0 <= i < s.len() && s[i].0 == d,
        |d: Date| s[choose|i: int| 0 <= i < s.len() && s[i].0 == d].1,
    )
}

/// No date occurs twice in the association list.
pub open spec fn distinct_dates<V>(s: Seq<(Date, V)>) -> bool {
    forall|i: int, j: int| 0 <= i < s.len() && 0 <= j < s.len() && i != j ==> s[i].0 != s[j].0
}

/// The fixings that pairs give when inserted in order: for each date, the
/// value of its last pair.
pub open spec fn fixings_of_pairs<V>(pairs: Seq<(Date, V)>) -> Map<Date, V>
    decreases pairs.len(),
{
    if pairs.len() == 0 {
        Map::empty()
    } else {
        fixings_of_pairs(pairs.drop_last()).insert(pairs.last().0, pairs.last().1)
    }
}

pub(crate) proof fn lemma_fixing_map_at<V>(s: Seq<(Date, V)>, i: int)
    requires
        distinct_dates(s),
        0 <= i < s.len(),
    ensures
        fixing_map(s).contains_key(s[i].0),
        fixing_map(s)[s[i].0] == s[i].1,
{
    let d = s[i].0;
    assert(exists|j: int| 0 <= j < s.len() && s[j].0 == d);
    let j = choose|j: int| 0 <= j < s.len() && s[j].0 == d;
    assert(j == i);
}

/// Sets the fixing of `date` to `value` in the association list.
pub(crate) fn insert_fixing<V>(entries: Vec<(Date, V)>, date: Date, value: V) -> (r: Vec<(Date, V)>)
    requires
        distinct_dates(entries@),
    ensures
        distinct_dates(r@),
        fixing_map(r@) == fixing_map(entries@).insert(date, value),
{
    let ghost before = entries@;
    let mut entries = entries;
    let mut pos: Option<usize> = None;
    let mut i: usize = 0;
    while i < entries.len()
        invariant
            entries@ == before,
            i <= entries@.len(),
            pos is None ==> forall|j: int| 0 <= j < i ==> entries@[j].0 != date,
            pos matches Some(p) ==> p < entries@.len() && entries@[p as int].0 == date,
        decreases entries@.len() - i,
    {
        if entries[i].0 == date {
            pos = Some(i);
            i = entries.len();
        } else {
            i = i + 1;
        }
    }
    let ghost at: int;
    match pos {
        Some(p) => {
            entries.set(p, (date, value));
            proof {
                at = p as int;
            }
        },
        None => {
            entries.push((date, value));
            proof {
                at = before.len() as int;
            }
        },
    }
    proof {
        assert(entries@[at].0 == date);
        assert forall|k: int| 0 <= k < entries@.len() && k != at implies #[trigger] entries@[k] == before[k] by {}
        assert(distinct_dates(entries@));
        assert forall|d: Date| #![auto]
            fixing_map(entries@).contains_key(d) == fixing_map(before).insert(date, value).contains_key(d) by {
            if d != date && fixing_map(before).contains_key(d) {
                let k = choose|k: int| 0 <= k < before.len() && before[k].0 == d;
                assert(entries@[k].0 == d);
            }
        }
        assert forall|d: Date| #[trigger]
            fixing_map(entries@).contains_key(d) implies fixing_map(entries@)[d] == fixing_map(before).insert(
            date,
            value,
        )[d] by {
            let k = choose|k: int| 0 <= k < entries@.len() && entries@[k].0 == d;
            lemma_fixing_map_at(entries@, k);
            if d != date {
                lemma_fixing_map_at(before, k);
            }
        }
        assert(fixing_map(entries@) =~= fixing_map(before).insert(date, value));
    }
    entries
}

/// The association list of the fixings that `pairs` give when inserted in
/// order.
pub(crate) fn fixings_from_pairs<V>(fixings: Vec<(Date, V)>) -> (r: Vec<(Date, V)>)
    ensures
        distinct_dates(r@),
        fixing_map(r@) == fixings_of_pairs(fixings@),
{
    let ghost pairs = fixings@;
    let mut entries: Vec<(Date, V)> = Vec::new();
    let n: usize = fixings.len();
    let mut rest = fixings;
    let mut i: usize = 0;
    proof {
        assert(fixing_map(entries@) =~= fixings_of_pairs(pairs.take(0)));
        assert(rest@ =~= pairs.skip(0));
    }
    while rest.len() > 0
        invariant
            n == pairs.len(),
            i + rest@.len() == pairs.len(),
            rest@ == pairs.skip(i as int),
            distinct_dates(entries@),
            fixing_map(entries@) == fixings_of_pairs(pairs.take(i as int)),
        decreases rest@.len(),
    {
        let (d, v) = rest.remove(0);
        proof {
            assert((d, v) == pairs[i as int]);
            assert(pairs.take(i as int + 1).drop_last() =~= pairs.take(i as int));
            assert(rest@ =~= pairs.skip(i as int + 1));
        }
        entries = insert_fixing(entries, d, v);
        i = i + 1;
    }
    proof {
        assert(pairs.take(i as int) =~= pairs);
    }
    entries
}

/// # IborIndex
/// An IBOR index: its tenor, rate definition, fixings (values of type `V`)
/// by date, the term structure (of type `S`) that forecasts it, and the id
/// of its yield provider.
pub struct IborIndex<V, S> {
    tenor: Period,
    rate_definition: RateDefinition,
    fixings: Vec<(Date, V)>,
    term_structure: Option<S>,
    provider_id: Option<usize>,
    reference_date: Date,
}

impl<V, S> IborIndex<V, S> {
    #[verifier::type_invariant]
    spec fn inv(self) -> bool {
        distinct_dates(self.fixings@)
    }

    /// The tenor.
    pub closed spec fn spec_tenor(&self) -> Period {
        self.tenor
    }

    /// The rate definition.
    pub closed spec fn spec_rate_definition(&self) -> RateDefinition {
        self.rate_definition
    }

    /// The fixings by date.
    pub closed spec fn spec_fixings(&self) -> Map<Date, V> {
        fixing_map(self.fixings@)
    }

    /// The forecasting term structure, if one is set.
    pub closed spec fn spec_term_structure(&self) -> Option<S> {
        self.term_structure
    }

    /// The id of the yield provider, if one is set.
    pub closed spec fn spec_provider_id(&self) -> Option<usize> {
        self.provider_id
    }

    /// The reference date.
    pub closed spec fn spec_date(&self) -> Date {
        self.reference_date
    }

    /// An index at `reference_date` with an empty tenor, the default rate
    /// definition, no fixings, no term structure and no provider id.
    pub fn new(reference_date: Date) -> (r: Self)
        ensures
            r.spec_date() == reference_date,
            r.spec_tenor() == (Period { length: 0, units: TimeUnit::Days }),
            r.spec_rate_definition()@ == (DayCounter::Actual360, Compounding::Simple, Frequency::Annual),
            r.spec_fixings() == Map::<Date, V>::empty(),
            r.spec_term_structure() is None,
            r.spec_provider_id() is None,
    {
        let r = IborIndex {
            reference_date,
            tenor: Period::new(0, TimeUnit::Days),
            rate_definition: RateDefinition::default(),
            fixings: Vec::new(),
            term_structure: None,
            provider_id: None,
        };
        assert(fixing_map(r.fixings@) =~= Map::<Date, V>::empty());
        r
    }

    /// The tenor.
    pub fn tenor(&self) -> (r: Period)
        ensures
            r == self.spec_tenor(),
    {
        self.tenor
    }

    /// The rate definition.
    pub fn rate_definition(&self) -> (r: RateDefinition)
        ensures
            r == self.spec_rate_definition(),
    {
        self.rate_definition
    }

    /// The forecasting term structure, if one is set.
    pub fn term_structure(&self) -> (r: Option<&S>)
        ensures
            r == match self.spec_term_structure() {
                Some(s) => Some(&s),
                None => None,
            },
    {
        match &self.term_structure {
            Some(s) => Some(s),
            None => None,
        }
    }

    /// The id of the yield provider, if one is set.
    pub fn provider_id(&self) -> (r: Option<usize>)
        ensures
            r == self.spec_provider_id(),
    {
        self.provider_id
    }

    /// The index with the given tenor.
    pub fn with_tenor(self, tenor: Period) -> (r: Self)
        ensures
            r.spec_tenor() == tenor,
            r.spec_rate_definition() == self.spec_rate_definition(),
            r.spec_fixings() == self.spec_fixings(),
            r.spec_term_structure() == self.spec_term_structure(),
            r.spec_provider_id() == self.spec_provider_id(),
            r.spec_date() == self.spec_date(),
    {
        proof {
            use_type_invariant(&self);
        }
        IborIndex { tenor, ..self }
    }

    /// The index with the given rate definition.
    pub fn with_rate_definition(self, rate_definition: RateDefinition) -> (r: Self)
        ensures
            r.spec_tenor() == self.spec_tenor(),
            r.spec_rate_definition() == rate_definition,
            r.spec_fixings() == self.spec_fixings(),
            r.spec_term_structure() == self.spec_term_structure(),
            r.spec_provider_id() == self.spec_provider_id(),
            r.spec_date() == self.spec_date(),
    {
        proof {
            use_type_invariant(&self);
        }
        IborIndex { rate_definition, ..self }
    }

    /// The index with the given fixings in place of its own: the pairs are
    /// taken in order, a later pair for a date replacing an earlier one.
    pub fn with_fixings(self, fixings: Vec<(Date, V)>) -> (r: Self)
        ensures
            r.spec_tenor() == self.spec_tenor(),
            r.spec_rate_definition() == self.spec_rate_definition(),
            r.spec_fixings() == fixings_of_pairs(fixings@),
            r.spec_term_structure() == self.spec_term_structure(),
            r.spec_provider_id() == self.spec_provider_id(),
            r.spec_date() == self.spec_date(),
    {
        let entries = fixings_from_pairs(fixings);
        IborIndex { fixings: entries, ..self }
    }

    /// The index with the given forecasting term structure.
    pub fn with_term_structure(self, term_structure: S) -> (r: Self)
        ensures
            r.spec_tenor() == self.spec_tenor(),
            r.spec_rate_definition() == self.spec_rate_definition(),
            r.spec_fixings() == self.spec_fixings(),
            r.spec_term_structure() == Some(term_structure),
            r.spec_provider_id() == self.spec_provider_id(),
            r.spec_date() == self.spec_date(),
    {
        proof {
            use_type_invariant(&self);
        }
        IborIndex { term_structure: Some(term_structure), ..self }
    }

    /// The index with the given yield provider id.
    pub fn with_provider_id(self, provider_id: Option<usize>) -> (r: Self)
        ensures
            r.spec_tenor() == self.spec_tenor(),
            r.spec_rate_definition() == self.spec_rate_definition(),
            r.spec_fixings() == self.spec_fixings(),
            r.spec_term_structure() == self.spec_term_structure(),
            r.spec_provider_id() == provider_id,
            r.spec_date() == self.spec_date(),
    {
        proof {
            use_type_invariant(&self);
        }
        IborIndex { provider_id, ..self }
    }

    /// Adds (or replaces) the fixing of `date`, which may not be after the
    /// reference date.
    pub fn add_fixing(&mut self, date: Date, rate: V)
        requires
            date.serial() <= old(self).spec_date().serial(),
        ensures
            final(self).spec_fixings() == old(self).spec_fixings().insert(date, rate),
            final(self).spec_tenor() == old(self).spec_tenor(),
            final(self).spec_rate_definition() == old(self).spec_rate_definition(),
            final(self).spec_term_structure() == old(self).spec_term_structure(),
            final(self).spec_provider_id() == old(self).spec_provider_id(),
            final(self).spec_date() == old(self).spec_date(),
    {
        proof {
            use_type_invariant(&*self);
        }
        let mut entries: Vec<(Date, V)> = Vec::new();
        std::mem::swap(&mut entries, &mut self.fixings);
        self.fixings = insert_fixing(entries, date, rate);
    }
}

impl<V: Copy, S> IborIndex<V, S> {
    /// The fixing of `date`, if there is one.
    pub fn fixing(&self, date: Date) -> (r: Option<V>)
        ensures
            r == if self.spec_fixings().contains_key(date) {
                Some(self.spec_fixings()[date])
            } else {
                None
            },
    {
        proof {
            use_type_invariant(self);
        }
        let mut i: usize = 0;
        while i < self.fixings.len()
            invariant
                i <= self.fixings@.len(),
                distinct_dates(self.fixings@),
                forall|j: int| 0 <= j < i ==> self.fixings@[j].0 != date,
            decreases self.fixings@.len() - i,
        {
            if self.fixings[i].0 == date {
                proof {
                    lemma_fixing_map_at(self.fixings@, i as int);
                }
                return Some(self.fixings[i].1);
            }
            i = i + 1;
        }
        None
    }

    /// Where the forward rate from `start_date` to `end_date` comes from: a
    /// start before the reference date takes the fixing of the start date
    /// (`Some`); a later start is forecast with the term structure (`None`).
    ///
    /// ## Errors
    /// `InvalidDateRange` when the end is before the start; `NoFixingRate`
    /// for a past start without a fixing; `NoTermStructure` for a forecast
    /// without a term structure.
    pub fn forward_rate_source(&self, start_date: Date, end_date: Date) -> (r: Result<Option<V>, QSError>)
        ensures
            r == if end_date.serial() < start_date.serial() {
                Err(QSError::InvalidDateRange(start_date, end_date))
            } else if start_date.serial() < self.spec_date().serial() {
                if self.spec_fixings().contains_key(start_date) {
                    Ok(Some(self.spec_fixings()[start_date]))
                } else {
                    Err(QSError::NoFixingRate(start_date))
                }
            } else if self.spec_term_structure() is Some {
                Ok(None)
            } else {
                Err(QSError::NoTermStructure)
            },
    {
        if end_date.is_before(start_date) {
            return Err(QSError::InvalidDateRange(start_date, end_date));
        }
        if start_date.is_before(self.reference_date) {
            match self.fixing(start_date) {
                Some(v) => Ok(Some(v)),
                None => Err(QSError::NoFixingRate(start_date)),
            }
        } else if self.term_structure.is_some() {
            Ok(None)
        } else {
            Err(QSError::NoTermStructure)
        }
    }
}

impl<V, S> HasReferenceDate for IborIndex<V, S> {
    open spec fn spec_reference_date(&self) -> Date {
        self.spec_date()
    }

    fn reference_date(&self) -> (r: Date) {
        self.reference_date
    }
}

} // verus!
