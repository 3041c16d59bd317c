//! A store of interest rate indices keyed by id.
use vstd::prelude::*;
use std::collections::HashMap;
use vstd::std_specs::iter::IteratorSpec;

use crate::currencies::Currency;
use crate::errors::QSError;
use crate::rates::interestrateindex::traits::{
    AdvanceInterestRateIndexInTime,
    HasName,
    HasTermStructure,
    InterestRateIndexTrait,
    RelinkableTermStructure,
};
use crate::rates::traits::HasReferenceDate;
use crate::time::{advance_ymd, can_advance_ymd, Date, Period, TimeUnit};

verus! {

broadcast use vstd::std_specs::hash::group_hash_axioms;

/// The map from currencies to curve ids held by an association list whose
/// currencies are pairwise distinct.
pub open spec fn curve_map(s: Seq<(Currency, usize)>) -> Map<Currency, usize> {
    Map::new(
        |c: Currency| exists|i: int| 0 <= i < s.len() && s[i].0 == c,
        |c: Currency| s[choose|i: int| 0 <= i < s.len() && s[i].0 == c].1,
    )
}

/// No currency occurs twice in the association list.
pub open spec fn distinct_currencies(s: Seq<(Currency, usize)>) -> bool {
    forall|i: int, j: int| 0 <= i < s.len() && 0 <= j < s.len() && i != j ==> s[i].0 != s[j].0
}

proof fn lemma_curve_map_at(s: Seq<(Currency, usize)>, i: int)
    requires
        distinct_currencies(s),
        0 <= i < s.len(),
    ensures
        curve_map(s).contains_key(s[i].0),
        curve_map(s)[s[i].0] == s[i].1,
{
    let c = s[i].0;
    assert(exists|k: int| 0 <= k < s.len() && s[k].0 == c);
    let k = choose|k: int| 0 <= k < s.len() && s[k].0 == c;
    assert(k == i);
}

/// # `IndexStore`
/// A store for interest rate indices.
///
/// ## Parameters
/// * `reference_date` - The reference date of the index store
pub struct IndexStore<I> {
    reference_date: Date,
    index_map: HashMap<usize, I>,
    currency_curve: Vec<(Currency, usize)>,
}

impl<I> IndexStore<I> {
    #[verifier::type_invariant]
    spec fn inv(self) -> bool {
        distinct_currencies(self.currency_curve@)
    }

    /// The reference date of the store.
    pub closed spec fn spec_reference_date(&self) -> Date {
        self.reference_date
    }

    /// The stored indices by id.
    pub closed spec fn indices(&self) -> Map<usize, I> {
        self.index_map@
    }

    /// The curve id mapped to each currency.
    pub closed spec fn currency_curves(&self) -> Map<Currency, usize> {
        curve_map(self.currency_curve@)
    }

    /// Creates a new `IndexStore` with the given reference date.
    pub fn new(reference_date: Date) -> (r: IndexStore<I>)
        ensures
            r.spec_reference_date() == reference_date,
            r.indices() == Map::<usize, I>::empty(),
            r.currency_curves() == Map::<Currency, usize>::empty(),
    {
        let r = IndexStore { reference_date, index_map: HashMap::new(), currency_curve: Vec::new() };
        assert(r.currency_curves() =~= Map::<Currency, usize>::empty());
        r
    }

    /// Returns the reference date of this index store.
    pub fn reference_date(&self) -> (r: Date)
        ensures
            r == self.spec_reference_date(),
    {
        self.reference_date
    }

    /// Position of `currency` in the association list of currency curves.
    fn find_currency(&self, currency: Currency) -> (r: Option<usize>)
        ensures
            r matches Some(i) ==> i < self.currency_curve@.len() && self.currency_curve@[i as int].0
                == currency,
            r is None ==> forall|j: int|
                0 <= j < self.currency_curve@.len() ==> self.currency_curve@[j].0 != currency,
    {
        let mut i: usize = 0;
        let n: usize = self.currency_curve.len();
        while i < n
            invariant
                n == self.currency_curve@.len(),
                i <= n,
                forall|j: int| 0 <= j < i ==> self.currency_curve@[j].0 != currency,
            decreases n - i,
        {
            if self.currency_curve[i].0 == currency {
                return Some(i);
            }
            i = i + 1;
        }
        None
    }

    /// Adds (or overwrites) the curve id mapped to a currency.
    pub fn add_currency_curve(&mut self, currency: Currency, fx_curve: usize)
        ensures
            final(self).currency_curves() == old(self).currency_curves().insert(currency, fx_curve),
            final(self).indices() == old(self).indices(),
            final(self).spec_reference_date() == old(self).spec_reference_date(),
    {
        proof {
            use_type_invariant(&*self);
        }
        let ghost before = self.currency_curve@;
        let pos = self.find_currency(currency);
        let mut curves: Vec<(Currency, usize)> = Vec::new();
        std::mem::swap(&mut curves, &mut self.currency_curve);
        let ghost at: int;
        match pos {
            Some(i) => {
                curves.set(i, (currency, fx_curve));
                proof {
                    at = i as int;
                }
            },
            None => {
                curves.push((currency, fx_curve));
                proof {
                    at = before.len() as int;
                }
            },
        }
        proof {
            assert(curves@[at].0 == currency);
            assert forall|k: int| 0 <= k < curves@.len() && k != at implies #[trigger] curves@[k]
                == before[k] by {}
            assert(distinct_currencies(curves@));
            assert forall|c: Currency| #![auto]
                curve_map(curves@).contains_key(c) == curve_map(before).insert(
                    currency,
                    fx_curve,
                ).contains_key(c) by {
                if c != currency && curve_map(before).contains_key(c) {
                    let k = choose|k: int| 0 <= k < before.len() && before[k].0 == c;
                    assert(curves@[k].0 == c);
                }
            }
            assert forall|c: Currency| #[trigger]
                curve_map(curves@).contains_key(c) implies curve_map(curves@)[c] == curve_map(
                before,
            ).insert(currency, fx_curve)[c] by {
                let k = choose|k: int| 0 <= k < curves@.len() && curves@[k].0 == c;
                lemma_curve_map_at(curves@, k);
                if c != currency {
                    lemma_curve_map_at(before, k);
                }
            }
            assert(curve_map(curves@) =~= curve_map(before).insert(currency, fx_curve));
        }
        self.currency_curve = curves;
    }

    /// Retrieves the curve id mapped to the given currency.
    pub fn get_currency_curve(&self, currency: Currency) -> (r: Result<usize, QSError>)
        ensures
            r is Ok <==> self.currency_curves().contains_key(currency),
            r matches Ok(id) ==> id == self.currency_curves()[currency],
            r matches Err(e) ==> e == QSError::CurrencyCurveNotFound(currency),
    {
        proof {
            use_type_invariant(self);
        }
        match self.find_currency(currency) {
            Some(i) => {
                proof {
                    lemma_curve_map_at(self.currency_curve@, i as int);
                }
                Ok(self.currency_curve[i].1)
            },
            None => Err(QSError::CurrencyCurveNotFound(currency)),
        }
    }

    /// The ids of the stored indices, each once, in no particular order.
    fn ids(&self) -> (r: Vec<usize>)
        ensures
            r@.to_set() == self.indices().dom(),
            r@.no_duplicates(),
            r@.len() == self.indices().dom().len(),
    {
        let mut v: Vec<usize> = Vec::new();
        let ghost keys = vstd::std_specs::hash::spec_keys_iter(&self.index_map).remaining();
        proof {
            vstd::std_specs::hash::axiom_spec_keys_iter(&self.index_map);
        }
        for k in it: self.index_map.keys()
            invariant
                it.seq() == keys,
                v@.len() == it.index(),
                forall|j: int| 0 <= j < it.index() ==> v@[j] == *keys[j],
        {
            v.push(*k);
        }
        proof {
            assert(v@ =~= keys.map_values(|x: &usize| *x));
            assert(keys.unref() =~= keys.map_values(|x: &usize| *x));
        }
        v
    }
}

/// Position of the entry named `name`.
fn find_name(entries: &Vec<(String, usize)>, name: &String) -> (r: Option<usize>)
    ensures
        r matches Some(p) ==> p < entries@.len() && entries@[p as int].0@ == name@,
        r is None ==> forall|a: int| 0 <= a < entries@.len() ==> entries@[a].0@ != name@,
{
    let mut pos: usize = 0;
    while pos < entries.len()
        invariant
            pos <= entries@.len(),
            forall|a: int| 0 <= a < pos ==> entries@[a].0@ != name@,
        decreases entries@.len() - pos,
    {
        if crate::text::str_eq(entries[pos].0.as_str(), name.as_str()) {
            return Some(pos);
        }
        pos = pos + 1;
    }
    None
}

/// Every index of `m` has its name among the entries.
pub open spec fn names_cover<I: HasName>(entries: Seq<(String, usize)>, m: Map<usize, I>) -> bool {
    forall|id: usize|
        #[trigger] m.contains_key(id) ==> exists|i: int|
            0 <= i < entries.len() && Some(#[trigger] entries[i].0@) == m[id].spec_name()
}

/// Advancing `index` by `period` succeeds and lands on the date whose year,
/// month and day are `target`.
pub open spec fn advances_onto<I: InterestRateIndexTrait>(index: I, period: Period, target: (int, int, int)) -> bool {
    index.spec_advance_to_period(period) matches Ok(x) && x.spec_reference_date()@ == target
}

/// `e` is the error of advancing `index` by `period` onto `target`: the
/// index's own error, or a reference date mismatch with the store.
pub open spec fn advance_error<I: InterestRateIndexTrait>(index: I, period: Period, target: (int, int, int), e: QSError) -> bool {
    match index.spec_advance_to_period(period) {
        Err(f) => e == f,
        Ok(x) => x.spec_reference_date()@ != target && (e matches QSError::ReferenceDateMismatch(a, b)
            && a@ == target && b == x.spec_reference_date()),
    }
}

/// The period of the days from `from` to `to`.
pub open spec fn days_between(from: Date, to: Date) -> Period {
    Period { length: (to.serial() - from.serial()) as i32, units: TimeUnit::Days }
}

/// Every index of the map has a name.
pub open spec fn all_named<I: HasName>(m: Map<usize, I>) -> bool {
    forall|id: usize| #[trigger] m.contains_key(id) ==> m[id].spec_name() is Some
}

impl<I: InterestRateIndexTrait> IndexStore<I> {
    /// Links a yield term structure to the index with the given id.
    pub fn link_term_structure(&mut self, id: usize, term_structure: I::TermStructure) -> (r:
        Result<(), QSError>)
        ensures
            r is Ok <==> old(self).indices().contains_key(id),
            r is Ok ==> final(self).indices() == old(self).indices().insert(
                id,
                old(self).indices()[id].spec_linked(term_structure),
            ),
            r is Err ==> final(self).indices() == old(self).indices(),
            r matches Err(e) ==> e == QSError::IndexNotFound(id),
            final(self).currency_curves() == old(self).currency_curves(),
            final(self).spec_reference_date() == old(self).spec_reference_date(),
    {
        proof {
            use_type_invariant(&*self);
        }
        let mut map: HashMap<usize, I> = HashMap::new();
        std::mem::swap(&mut map, &mut self.index_map);
        match map.remove(&id) {
            None => {
                proof {
                    assert(map@ =~= old(self).index_map@);
                }
                self.index_map = map;
                Err(QSError::IndexNotFound(id))
            },
            Some(mut index) => {
                index.link_to(term_structure);
                map.insert(id, index);
                self.index_map = map;
                proof {
                    assert(self.index_map@ =~= old(self).index_map@.insert(
                        id,
                        old(self).index_map@[id].spec_linked(term_structure),
                    ));
                }
                Ok(())
            },
        }
    }

    /// Adds an index to the store under the given id.
    ///
    /// Fails when the index reference date differs from the store reference
    /// date, or when the id is already taken; the store is then unchanged.
    pub fn add_index(&mut self, id: usize, index: I) -> (r: Result<(), QSError>)
        ensures
            r is Ok <==> (index.spec_reference_date() == old(self).spec_reference_date()
                && !old(self).indices().contains_key(id)),
            r is Ok ==> final(self).indices() == old(self).indices().insert(id, index),
            r is Err ==> final(self).indices() == old(self).indices(),
            r matches Err(e) ==> (if index.spec_reference_date()
                != old(self).spec_reference_date() {
                e == QSError::ReferenceDateMismatch(
                    old(self).spec_reference_date(),
                    index.spec_reference_date(),
                )
            } else {
                e == QSError::IndexAlreadyExists(id)
            }),
            final(self).currency_curves() == old(self).currency_curves(),
            final(self).spec_reference_date() == old(self).spec_reference_date(),
    {
        proof {
            use_type_invariant(&*self);
        }
        let index_date = index.reference_date();
        if self.reference_date != index_date {
            return Err(QSError::ReferenceDateMismatch(self.reference_date, index_date));
        }
        if self.index_map.contains_key(&id) {
            return Err(QSError::IndexAlreadyExists(id));
        }
        let mut map: HashMap<usize, I> = HashMap::new();
        std::mem::swap(&mut map, &mut self.index_map);
        map.insert(id, index);
        self.index_map = map;
        Ok(())
    }

    /// Replaces the index stored under the given id.
    ///
    /// Fails when the index reference date differs from the store reference
    /// date, or when no index is stored under the id; the store is then unchanged.
    pub fn replace_index(&mut self, id: usize, index: I) -> (r: Result<(), QSError>)
        ensures
            r is Ok <==> (index.spec_reference_date() == old(self).spec_reference_date()
                && old(self).indices().contains_key(id)),
            r is Ok ==> final(self).indices() == old(self).indices().insert(id, index),
            r is Err ==> final(self).indices() == old(self).indices(),
            r matches Err(e) ==> (if index.spec_reference_date()
                != old(self).spec_reference_date() {
                e == QSError::ReferenceDateMismatch(
                    old(self).spec_reference_date(),
                    index.spec_reference_date(),
                )
            } else {
                e == QSError::IndexDoesNotExist(id)
            }),
            final(self).currency_curves() == old(self).currency_curves(),
            final(self).spec_reference_date() == old(self).spec_reference_date(),
    {
        proof {
            use_type_invariant(&*self);
        }
        let index_date = index.reference_date();
        if self.reference_date != index_date {
            return Err(QSError::ReferenceDateMismatch(self.reference_date, index_date));
        }
        if !self.index_map.contains_key(&id) {
            return Err(QSError::IndexDoesNotExist(id));
        }
        let mut map: HashMap<usize, I> = HashMap::new();
        std::mem::swap(&mut map, &mut self.index_map);
        map.insert(id, index);
        self.index_map = map;
        Ok(())
    }

    /// Retrieves the index stored under the given id.
    pub fn get_index(&self, id: usize) -> (r: Result<&I, QSError>)
        ensures
            r is Ok <==> self.indices().contains_key(id),
            r matches Ok(index) ==> *index == self.indices()[id],
            r matches Err(e) ==> e == QSError::IndexNotFound(id),
    {
        match self.index_map.get(&id) {
            Some(index) => Ok(index),
            None => Err(QSError::IndexNotFound(id)),
        }
    }

    /// The indices of the curves mapped to two currencies, as the currency
    /// forecast factor between them at a date divides their discount factors.
    ///
    /// ## Errors
    /// `CurrencyCurveNotFound` for the first currency with no curve (the first
    /// currency checked first), then `IndexNotFound` for the first curve id
    /// with no index.
    pub fn currency_forecast_curves(&self, first_currency: Currency, second_currency: Currency) -> (r: Result<(&I, &I), QSError>)
        ensures
            r is Ok <==> {
                &&& self.currency_curves().contains_key(first_currency)
                &&& self.currency_curves().contains_key(second_currency)
                &&& self.indices().contains_key(self.currency_curves()[first_currency])
                &&& self.indices().contains_key(self.currency_curves()[second_currency])
            },
            r matches Ok((a, b)) ==> *a == self.indices()[self.currency_curves()[first_currency]]
                && *b == self.indices()[self.currency_curves()[second_currency]],
            r matches Err(e) ==> if !self.currency_curves().contains_key(first_currency) {
                e == QSError::CurrencyCurveNotFound(first_currency)
            } else if !self.currency_curves().contains_key(second_currency) {
                e == QSError::CurrencyCurveNotFound(second_currency)
            } else if !self.indices().contains_key(self.currency_curves()[first_currency]) {
                e == QSError::IndexNotFound(self.currency_curves()[first_currency])
            } else {
                e == QSError::IndexNotFound(self.currency_curves()[second_currency])
            },
    {
        let first_id = self.get_currency_curve(first_currency)?;
        let second_id = self.get_currency_curve(second_currency)?;
        let first_curve = self.get_index(first_id)?;
        let second_curve = self.get_index(second_id)?;
        Ok((first_curve, second_curve))
    }

    /// Retrieves an index by its name.
    ///
    /// The indices are visited in no particular order; an index whose name
    /// cannot be read makes the search fail with that index's error.
    pub fn get_index_by_name(&self, name: String) -> (r: Result<&I, QSError>)
        ensures
            r matches Ok(index) ==> exists|id: usize|
                self.indices().contains_key(id) && self.indices()[id] == *index
                    && index.spec_name() == Some(name@),
            all_named(self.indices()) ==> (r is Ok <==> exists|id: usize|
                self.indices().contains_key(id) && self.indices()[id].spec_name() == Some(
                    name@,
                )),
            all_named(self.indices()) ==> (r matches Err(e) ==> e == QSError::IndexNameNotFound(
                name,
            )),
    {
        let ids = self.ids();
        let mut i: usize = 0;
        while i < ids.len()
            invariant
                ids@.to_set() == self.indices().dom(),
                i <= ids@.len(),
                forall|j: int|
                    0 <= j < i ==> self.indices()[#[trigger] ids@[j]].spec_name() != Some(name@),
                forall|j: int| 0 <= j < i ==> self.indices()[#[trigger] ids@[j]].spec_name() is Some,
            decreases ids@.len() - i,
        {
            let id = ids[i];
            proof {
                assert(ids@.to_set().contains(id));
            }
            let index = match self.index_map.get(&id) {
                Some(index) => index,
                None => {
                    return Err(QSError::IndexNotFound(id));
                },
            };
            let index_name = index.name()?;
            if crate::text::str_eq(index_name.as_str(), name.as_str()) {
                return Ok(index);
            }
            i = i + 1;
        }
        proof {
            assert forall|id: usize|
                self.indices().contains_key(id) implies self.indices()[id].spec_name() != Some(
                name@,
            ) by {
                assert(ids@.to_set().contains(id));
                let j = choose|j: int| 0 <= j < ids@.len() && ids@[j] == id;
                assert(self.indices()[ids@[j]].spec_name() != Some(name@));
            }
        }
        Err(QSError::IndexNameNotFound(name))
    }

    /// Returns the names of all indices, in no particular order; an error
    /// when the name of some index cannot be read.
    pub fn get_index_names(&self) -> (r: Result<Vec<String>, QSError>)
        ensures
            r is Ok <==> all_named(self.indices()),
            r matches Ok(names) ==> exists|ids: Seq<usize>|
                #![trigger ids.to_set()]
                ids.no_duplicates() && ids.to_set() == self.indices().dom() && ids.len()
                    == names@.len() && forall|j: int|
                    0 <= j < ids.len() ==> self.indices()[ids[j]].spec_name() == Some(
                        #[trigger] names@[j]@,
                    ),
    {
        let ids = self.ids();
        let mut names: Vec<String> = Vec::new();
        let mut i: usize = 0;
        while i < ids.len()
            invariant
                ids@.to_set() == self.indices().dom(),
                ids@.no_duplicates(),
                i <= ids@.len(),
                names@.len() == i,
                forall|j: int|
                    0 <= j < i ==> self.indices()[ids@[j]].spec_name() == Some(
                        #[trigger] names@[j]@,
                    ),
            decreases ids@.len() - i,
        {
            let id = ids[i];
            proof {
                assert(ids@.to_set().contains(id));
            }
            let index = match self.index_map.get(&id) {
                Some(index) => index,
                None => {
                    return Err(QSError::IndexNotFound(id));
                },
            };
            let index_name = match index.name() {
                Ok(n) => n,
                Err(e) => {
                    assert(!self.indices().contains_key(id) || self.indices()[id].spec_name() is None);
                    return Err(e);
                },
            };
            names.push(index_name);
            i = i + 1;
        }
        proof {
            assert forall|id: usize| #[trigger] self.indices().contains_key(id) implies self.indices()[id].spec_name() is Some by {
                assert(ids@.to_set().contains(id));
                let j = choose|j: int| 0 <= j < ids@.len() && ids@[j] == id;
                assert(self.indices()[ids@[j]].spec_name() == Some(names@[j]@));
            }
        }
        Ok(names)
    }

    /// Returns each index name together with the id of an index of that name
    /// (for a name shared by several indices, one of their ids).
    pub fn get_index_map(&self) -> (r: Result<Vec<(String, usize)>, QSError>)
        ensures
            r is Ok <==> all_named(self.indices()),
            r matches Ok(entries) ==> forall|i: int, j: int|
                0 <= i < entries@.len() && 0 <= j < entries@.len() && i != j ==> entries@[i].0@
                    != entries@[j].0@,
            r matches Ok(entries) ==> forall|i: int|
                0 <= i < entries@.len() ==> self.indices().contains_key(#[trigger] entries@[i].1)
                    && self.indices()[entries@[i].1].spec_name() == Some(entries@[i].0@),
            r matches Ok(entries) ==> names_cover(entries@, self.indices()),
    {
        let ids = self.ids();
        let mut entries: Vec<(String, usize)> = Vec::new();
        let mut i: usize = 0;
        while i < ids.len()
            invariant
                ids@.to_set() == self.indices().dom(),
                forall|j: int|
                    #![trigger ids@[j]]
                    0 <= j < i ==> self.indices()[ids@[j]].spec_name() is Some,
                i <= ids@.len(),
                forall|a: int, b: int|
                    0 <= a < entries@.len() && 0 <= b < entries@.len() && a != b ==> entries@[a].0@
                        != entries@[b].0@,
                forall|a: int|
                    0 <= a < entries@.len() ==> self.indices().contains_key(
                        #[trigger] entries@[a].1,
                    ) && self.indices()[entries@[a].1].spec_name() == Some(entries@[a].0@),
                forall|j: int|
                    #![trigger ids@[j]]
                    0 <= j < i ==> exists|a: int|
                        0 <= a < entries@.len() && Some(#[trigger] entries@[a].0@) == self.indices()[ids@[j]].spec_name(),
            decreases ids@.len() - i,
        {
            let id = ids[i];
            proof {
                assert(ids@.to_set().contains(id));
            }
            let index = match self.index_map.get(&id) {
                Some(index) => index,
                None => {
                    return Err(QSError::IndexNotFound(id));
                },
            };
            let name = match index.name() {
                Ok(n) => n,
                Err(e) => {
                    assert(self.indices()[id].spec_name() is None);
                    return Err(e);
                },
            };
            let ghost old_entries = entries@;
            let found = find_name(&entries, &name);
            if let Some(pos) = found {
                let ghost at = pos as int;
                entries.set(pos, (name, id));
                proof {
                    assert forall|j: int|
                        #![trigger ids@[j]]
                        0 <= j < i + 1 implies exists|a: int|
                            0 <= a < entries@.len() && Some(#[trigger] entries@[a].0@) == self.indices()[ids@[j]].spec_name() by {
                        if j < i {
                            let a = choose|a: int| 0 <= a < old_entries.len() && Some(old_entries[a].0@) == self.indices()[ids@[j]].spec_name();
                            assert(entries@[a].0@ == old_entries[a].0@);
                        } else {
                            assert(entries@[at].0@ == name@);
                        }
                    }
                }
            } else {
                entries.push((name, id));
                proof {
                    assert forall|j: int|
                        #![trigger ids@[j]]
                        0 <= j < i + 1 implies exists|a: int|
                            0 <= a < entries@.len() && Some(#[trigger] entries@[a].0@) == self.indices()[ids@[j]].spec_name() by {
                        if j < i {
                            let a = choose|a: int| 0 <= a < old_entries.len() && Some(old_entries[a].0@) == self.indices()[ids@[j]].spec_name();
                            assert(entries@[a] == old_entries[a]);
                        } else {
                            assert(entries@[old_entries.len() as int].0@ == name@);
                        }
                    }
                }
            }
            i = i + 1;
        }
        proof {
            assert forall|id: usize| #[trigger]
                self.indices().contains_key(id) implies exists|a: int|
                    0 <= a < entries@.len() && Some(#[trigger] entries@[a].0@)
                        == self.indices()[id].spec_name() by {
                assert(ids@.to_set().contains(id));
                let j = choose|j: int| 0 <= j < ids@.len() && ids@[j] == id;
            }
        }
        assert(all_named(self.indices())) by {
            assert forall|id: usize| #[trigger] self.indices().contains_key(id) implies self.indices()[id].spec_name() is Some by {
                assert(ids@.to_set().contains(id));
                let j = choose|j: int| 0 <= j < ids@.len() && ids@[j] == id;
                assert(self.indices()[ids@[j]].spec_name() is Some);
            }
        }
        assert(names_cover(entries@, self.indices()));
        Ok(entries)
    }

    /// Returns all stored indices, in no particular order.
    pub fn get_all_indices(&self) -> (r: Vec<&I>)
        ensures
            exists|ids: Seq<usize>|
                #![trigger ids.to_set()]
                ids.no_duplicates() && ids.to_set() == self.indices().dom() && ids.len()
                    == r@.len() && forall|j: int|
                    0 <= j < ids.len() ==> *#[trigger] r@[j] == self.indices()[ids[j]],
    {
        let ids = self.ids();
        let mut all: Vec<&I> = Vec::new();
        let mut i: usize = 0;
        while i < ids.len()
            invariant
                ids@.to_set() == self.indices().dom(),
                i <= ids@.len(),
                all@.len() == i,
                forall|j: int| 0 <= j < i ==> *#[trigger] all@[j] == self.indices()[ids@[j]],
            decreases ids@.len() - i,
        {
            let id = ids[i];
            proof {
                assert(ids@.to_set().contains(id));
            }
            match self.index_map.get(&id) {
                Some(index) => {
                    all.push(index);
                },
                None => {},
            }
            i = i + 1;
        }
        all
    }

    /// Returns the next available index id: one more than the largest id in
    /// use (1 for an empty store).
    pub fn next_available_id(&self) -> (r: usize)
        requires
            forall|id: usize| self.indices().contains_key(id) ==> id < usize::MAX,
        ensures
            forall|id: usize| self.indices().contains_key(id) ==> id < r,
            r >= 1,
            r == 1 || self.indices().contains_key((r - 1) as usize),
    {
        let ids = self.ids();
        let mut max: usize = 0;
        let mut i: usize = 0;
        while i < ids.len()
            invariant
                ids@.to_set() == self.indices().dom(),
                forall|id: usize| self.indices().contains_key(id) ==> id < usize::MAX,
                i <= ids@.len(),
                forall|j: int| 0 <= j < i ==> ids@[j] <= max,
                max == 0 || exists|j: int| 0 <= j < i && ids@[j] == max,
            decreases ids@.len() - i,
        {
            if ids[i] > max {
                max = ids[i];
            }
            i = i + 1;
        }
        proof {
            assert forall|id: usize| self.indices().contains_key(id) implies id < max + 1 by {
                assert(ids@.to_set().contains(id));
            }
            if max != 0 {
                let j = choose|j: int| 0 <= j < ids@.len() && ids@[j] == max;
                assert(ids@.to_set().contains(ids@[j]));
            }
        }
        max + 1
    }

    /// Advances the index store by the given period: the new store has the
    /// advanced reference date, each index advanced by the period under the
    /// same id, and the same currency curves.
    pub fn advance_to_period(&self, period: Period) -> (r: Result<IndexStore<I>, QSError>)
        requires
            can_advance_ymd(self.spec_reference_date()@, period),
        ensures
            r is Ok <==> forall|id: usize| #[trigger]
                self.indices().contains_key(id) ==> advances_onto(
                    self.indices()[id],
                    period,
                    advance_ymd(self.spec_reference_date()@, period),
                ),
            r matches Ok(s) ==> {
                &&& s.spec_reference_date()@ == advance_ymd(self.spec_reference_date()@, period)
                &&& s.indices().dom() == self.indices().dom()
                &&& forall|id: usize| #[trigger]
                    s.indices().contains_key(id) ==> s.indices()[id].spec_reference_date()
                        == s.spec_reference_date()
                &&& forall|id: usize| #[trigger]
                    s.indices().contains_key(id) ==> self.indices()[id].spec_advance_to_period(period)
                        == Ok::<I, QSError>(s.indices()[id])
                &&& s.currency_curves() == self.currency_curves()
            },
            r matches Err(e) ==> exists|id: usize|
                #[trigger] self.indices().contains_key(id) && advance_error(
                    self.indices()[id],
                    period,
                    advance_ymd(self.spec_reference_date()@, period),
                    e,
                ),
            self.indices().dom().is_empty() ==> r is Ok,
    {
        proof {
            use_type_invariant(self);
        }
        let reference_date = self.reference_date.advance(period);
        let mut store: IndexStore<I> = IndexStore::new(reference_date);
        let ids = self.ids();
        let mut i: usize = 0;
        while i < ids.len()
            invariant
                ids@.to_set() == self.indices().dom(),
                ids@.no_duplicates(),
                i <= ids@.len(),
                store.spec_reference_date() == reference_date,
                reference_date@ == advance_ymd(self.spec_reference_date()@, period),
                store.indices().dom() == ids@.subrange(0, i as int).to_set(),
                forall|id: usize| #[trigger]
                    store.indices().contains_key(id) ==> store.indices()[id].spec_reference_date()
                        == reference_date,
                forall|id: usize| #[trigger]
                    store.indices().contains_key(id) ==> self.indices()[id].spec_advance_to_period(period)
                        == Ok::<I, QSError>(store.indices()[id]),
                forall|j: int|
                    0 <= j < i ==> advances_onto(
                        self.indices()[#[trigger] ids@[j]],
                        period,
                        advance_ymd(self.spec_reference_date()@, period),
                    ),
                store.currency_curves() == Map::<Currency, usize>::empty(),
            decreases ids@.len() - i,
        {
            let id = ids[i];
            proof {
                assert(ids@.to_set().contains(id));
                assert(!ids@.subrange(0, i as int).contains(id));
            }
            let index = match self.index_map.get(&id) {
                Some(index) => index,
                None => {
                    return Err(QSError::IndexNotFound(id));
                },
            };
            let ghost target = advance_ymd(self.spec_reference_date()@, period);
            let new_index = match index.advance_to_period(period) {
                Ok(x) => x,
                Err(e) => {
                    assert(advance_error(self.indices()[id], period, target, e));
                    return Err(e);
                },
            };
            let ghost before = store.indices();
            let ghost new_date = new_index.spec_reference_date();
            match store.add_index(id, new_index) {
                Ok(()) => {},
                Err(e) => {
                    proof {
                        if new_date@ == target {
                            new_date.lemma_view_injective(reference_date);
                        }
                        assert(advance_error(self.indices()[id], period, target, e));
                    }
                    return Err(e);
                },
            }
            proof {
                reference_date.lemma_view_injective(reference_date);
                assert(advances_onto(self.indices()[id], period, target));
            }
            i = i + 1;
            proof {
                assert(ids@.subrange(0, i as int) =~= ids@.subrange(0, i as int - 1).push(id));
                ids@.subrange(0, i as int - 1).lemma_push_to_set_commute(id);
                assert(ids@.subrange(0, i as int).to_set() =~= ids@.subrange(
                    0,
                    i as int - 1,
                ).to_set().insert(id));
            }
        }
        proof {
            assert(ids@.subrange(0, ids@.len() as int) =~= ids@);
        }
        let curves = self.copy_currency_curves();
        let result = IndexStore {
            reference_date: store.reference_date,
            index_map: store.index_map,
            currency_curve: curves,
        };
        Ok(result)
    }

    /// Advances the index store to the given date: by the period of the days
    /// from its reference date to `date`.
    pub fn advance_to_date(&self, date: Date) -> (r: Result<IndexStore<I>, QSError>)
        ensures
            r is Ok <==> forall|id: usize| #[trigger]
                self.indices().contains_key(id) ==> advances_onto(
                    self.indices()[id],
                    days_between(self.spec_reference_date(), date),
                    date@,
                ),
            r matches Ok(s) ==> forall|id: usize| #[trigger]
                s.indices().contains_key(id) ==> self.indices()[id].spec_advance_to_period(
                    days_between(self.spec_reference_date(), date),
                ) == Ok::<I, QSError>(s.indices()[id]),
            r matches Err(e) ==> exists|id: usize|
                #[trigger] self.indices().contains_key(id) && advance_error(
                    self.indices()[id],
                    days_between(self.spec_reference_date(), date),
                    date@,
                    e,
                ),
            r matches Ok(s) ==> {
                &&& s.spec_reference_date() == date
                &&& s.indices().dom() == self.indices().dom()
                &&& forall|id: usize| #[trigger]
                    s.indices().contains_key(id) ==> s.indices()[id].spec_reference_date() == date
                &&& s.currency_curves() == self.currency_curves()
            },
            self.indices().dom().is_empty() ==> r is Ok,
    {
        date.validity();
        self.reference_date.validity();
        let days = date.days_since(self.reference_date);
        let period = Period::new(days, TimeUnit::Days);
        let r = self.advance_to_period(period);
        proof {
            crate::time::lemma_date_of_serial(date@);
            assert(period == days_between(self.spec_reference_date(), date));
            assert(advance_ymd(self.spec_reference_date()@, days_between(self.spec_reference_date(), date)) == date@);
            if r is Ok {
                let s = r->Ok_0;
                s.spec_reference_date().lemma_view_injective(date);
            }
        }
        r
    }

    /// Moves the index stored under `from` to the id `to`.
    pub fn swap_index_by_id(&mut self, from: usize, to: usize)
        requires
            old(self).indices().contains_key(from),
        ensures
            final(self).indices() == old(self).indices().remove(from).insert(
                to,
                old(self).indices()[from],
            ),
            final(self).currency_curves() == old(self).currency_curves(),
            final(self).spec_reference_date() == old(self).spec_reference_date(),
    {
        proof {
            use_type_invariant(&*self);
        }
        let mut map: HashMap<usize, I> = HashMap::new();
        std::mem::swap(&mut map, &mut self.index_map);
        match map.remove(&from) {
            Some(index) => {
                map.insert(to, index);
            },
            None => {},
        }
        self.index_map = map;
    }
}

impl<I> IndexStore<I> {
    /// A copy of the currency curve association list.
    fn copy_currency_curves(&self) -> (r: Vec<(Currency, usize)>)
        ensures
            r@ == self.currency_curve@,
    {
        let mut curves: Vec<(Currency, usize)> = Vec::new();
        let mut i: usize = 0;
        while i < self.currency_curve.len()
            invariant
                i <= self.currency_curve@.len(),
                curves@ == self.currency_curve@.subrange(0, i as int),
            decreases self.currency_curve@.len() - i,
        {
            curves.push(self.currency_curve[i]);
            i = i + 1;
            proof {
                assert(curves@ =~= self.currency_curve@.subrange(0, i as int));
            }
        }
        proof {
            assert(curves@ =~= self.currency_curve@);
        }
        curves
    }
}

impl<I: Clone> Clone for IndexStore<I> {
    /// A copy of the store; the indices are cloned with `I::clone`.
    fn clone(&self) -> (r: Self)
        ensures
            r.spec_reference_date() == self.spec_reference_date(),
            r.currency_curves() == self.currency_curves(),
            r.indices() == self.indices(),
    {
        proof {
            use_type_invariant(self);
        }
        let curves = self.copy_currency_curves();
        IndexStore {
            reference_date: self.reference_date,
            index_map: self.index_map.clone(),
            currency_curve: curves,
        }
    }
}

/// An index added (or replaced) under an id is the index then read back
/// under that id, and the indices under other ids stay as they were.
pub proof fn lemma_index_written_is_read<I>(m: Map<usize, I>, id: usize, index: I, other: usize)
    ensures
        m.insert(id, index).contains_key(id),
        m.insert(id, index)[id] == index,
        other != id ==> m.insert(id, index).contains_key(other) == m.contains_key(other),
        other != id && m.contains_key(other) ==> m.insert(id, index)[other] == m[other],
{
}

/// The next available id is free: an index with the store's reference date
/// can be added under it.
pub proof fn lemma_next_available_id_is_free<I>(m: Map<usize, I>, next: usize)
    requires
        forall|id: usize| m.contains_key(id) ==> id < next,
    ensures
        !m.contains_key(next),
{
}

/// A currency curve mapped to a currency is the curve then read back for it.
pub proof fn lemma_currency_curve_written_is_read(
    m: Map<Currency, usize>,
    currency: Currency,
    curve: usize,
)
    ensures
        m.insert(currency, curve).contains_key(currency),
        m.insert(currency, curve)[currency] == curve,
{
}

} // verus!
