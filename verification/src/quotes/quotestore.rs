//! A store of market quotes, indexed by quote identifier.
use vstd::prelude::*;

use crate::quotes::quote::{Quote, QuoteSelector};
use crate::time::Date;

verus! {

/// The identifier of a quote.
pub open spec fn quote_id<T: Copy>(q: Quote<T>) -> Seq<char> {
    q.spec_details()@.identifier
}

/// No identifier occurs twice.
pub open spec fn distinct_ids<T: Copy>(qs: Seq<Quote<T>>) -> bool {
    forall|i: int, j: int|
        0 <= i < qs.len() && 0 <= j < qs.len() && i != j ==> quote_id(#[trigger] qs[i]) != quote_id(
            #[trigger] qs[j],
        )
}

/// The quotes by identifier.
pub open spec fn quotes_by_id<T: Copy>(qs: Seq<Quote<T>>) -> Map<Seq<char>, Quote<T>> {
    Map::new(
        |id: Seq<char>| exists|i: int| 0 <= i < qs.len() && quote_id(#[trigger] qs[i]) == id,
        |id: Seq<char>| qs[choose|i: int| 0 <= i < qs.len() && quote_id(#[trigger] qs[i]) == id],
    )
}

/// In a list without repeated identifiers, each quote is the one stored
/// under its identifier.
pub proof fn lemma_quotes_by_id_at<T: Copy>(qs: Seq<Quote<T>>, i: int)
    requires
        distinct_ids(qs),
        0 <= i < qs.len(),
    ensures
        quotes_by_id(qs).contains_key(quote_id(qs[i])),
        quotes_by_id(qs)[quote_id(qs[i])] == qs[i],
{
    let id = quote_id(qs[i]);
    assert(exists|j: int| 0 <= j < qs.len() && quote_id(#[trigger] qs[j]) == id);
    let j = choose|j: int| 0 <= j < qs.len() && quote_id(#[trigger] qs[j]) == id;
    assert(j == i);
}

/// Market quotes loaded for a reference date, one per identifier, in the
/// order in which their identifiers were first added.
#[derive(Debug)]
pub struct QuoteStore<T: Copy> {
    reference_date: Date,
    quotes: Vec<Quote<T>>,
}

impl<T: Copy> QuoteStore<T> {
    #[verifier::type_invariant]
    spec fn inv(self) -> bool {
        distinct_ids(self.quotes@)
    }

    /// The stored quotes.
    pub closed spec fn spec_quotes(&self) -> Seq<Quote<T>> {
        self.quotes@
    }

    /// The reference date of the quotes.
    pub closed spec fn spec_reference_date(&self) -> Date {
        self.reference_date
    }

    /// The stored quotes by identifier.
    pub open spec fn contents(&self) -> Map<Seq<char>, Quote<T>> {
        quotes_by_id(self.spec_quotes())
    }

    /// Creates an empty store.
    pub fn new(reference_date: Date) -> (r: Self)
        ensures
            r.spec_reference_date() == reference_date,
            r.spec_quotes() == Seq::<Quote<T>>::empty(),
    {
        QuoteStore { reference_date, quotes: Vec::new() }
    }

    /// Returns the reference date of the quotes.
    pub fn reference_date(&self) -> (r: Date)
        ensures
            r == self.spec_reference_date(),
    {
        self.reference_date
    }

    /// Position of the quote with identifier `identifier`.
    fn position(&self, identifier: &str) -> (r: Option<usize>)
        ensures
            r matches Some(i) ==> i < self.spec_quotes().len() && quote_id(self.spec_quotes()[i as int])
                == identifier@,
            r is None ==> forall|i: int|
                0 <= i < self.spec_quotes().len() ==> quote_id(#[trigger] self.spec_quotes()[i])
                    != identifier@,
    {
        let mut i: usize = 0;
        while i < self.quotes.len()
            invariant
                i <= self.quotes@.len(),
                forall|k: int| 0 <= k < i ==> quote_id(#[trigger] self.quotes@[k]) != identifier@,
            decreases self.quotes@.len() - i,
        {
            let id = self.quotes[i].details().identifier();
            if crate::text::str_eq(id.as_str(), identifier) {
                return Some(i);
            }
            i = i + 1;
        }
        None
    }

    /// Adds a quote under its identifier, replacing the quote stored under
    /// the same identifier, if any (which keeps its position).
    pub fn add_quote(&mut self, quote: Quote<T>)
        ensures
            final(self).spec_reference_date() == old(self).spec_reference_date(),
            (exists|i: int|
                0 <= i < old(self).spec_quotes().len() && quote_id(
                    #[trigger] old(self).spec_quotes()[i],
                ) == quote_id(quote)) ==> (exists|i: int|
                0 <= i < old(self).spec_quotes().len() && quote_id(
                    #[trigger] old(self).spec_quotes()[i],
                ) == quote_id(quote) && final(self).spec_quotes() == old(self).spec_quotes().update(
                    i,
                    quote,
                )),
            !(exists|i: int|
                0 <= i < old(self).spec_quotes().len() && quote_id(
                    #[trigger] old(self).spec_quotes()[i],
                ) == quote_id(quote)) ==> final(self).spec_quotes() == old(self).spec_quotes().push(
                quote,
            ),
            final(self).contents() == old(self).contents().insert(quote_id(quote), quote),
    {
        proof {
            use_type_invariant(&*self);
        }
        let ghost before = self.quotes@;
        let id = quote.details().identifier();
        let pos = self.position(id.as_str());
        let mut qs: Vec<Quote<T>> = Vec::new();
        std::mem::swap(&mut qs, &mut self.quotes);
        match pos {
            Some(i) => {
                qs.set(i, quote);
                proof {
                    assert(distinct_ids(qs@));
                    assert(quotes_by_id(qs@) =~= quotes_by_id(before).insert(quote_id(quote), quote))
                        by {
                        assert forall|k: Seq<char>| #[trigger]
                            quotes_by_id(qs@).contains_key(k) implies quotes_by_id(
                            before,
                        ).insert(quote_id(quote), quote).contains_key(k) && quotes_by_id(qs@)[k]
                            == quotes_by_id(before).insert(quote_id(quote), quote)[k] by {
                            let j = choose|j: int| 0 <= j < qs@.len() && quote_id(#[trigger] qs@[j]) == k;
                            lemma_quotes_by_id_at(qs@, j);
                            if j != i {
                                lemma_quotes_by_id_at(before, j);
                            }
                        }
                        assert forall|k: Seq<char>| #[trigger]
                            quotes_by_id(before).insert(quote_id(quote), quote).contains_key(
                                k,
                            ) implies quotes_by_id(qs@).contains_key(k) by {
                            if k != quote_id(quote) {
                                let j = choose|j: int|
                                    0 <= j < before.len() && quote_id(#[trigger] before[j]) == k;
                                assert(qs@[j] == before[j]);
                            } else {
                                assert(quote_id(qs@[i as int]) == k);
                            }
                        }
                    }
                }
            },
            None => {
                qs.push(quote);
                proof {
                    assert(distinct_ids(qs@));
                    let n = before.len() as int;
                    assert(quotes_by_id(qs@) =~= quotes_by_id(before).insert(quote_id(quote), quote))
                        by {
                        assert forall|k: Seq<char>| #[trigger]
                            quotes_by_id(qs@).contains_key(k) implies quotes_by_id(
                            before,
                        ).insert(quote_id(quote), quote).contains_key(k) && quotes_by_id(qs@)[k]
                            == quotes_by_id(before).insert(quote_id(quote), quote)[k] by {
                            let j = choose|j: int| 0 <= j < qs@.len() && quote_id(#[trigger] qs@[j]) == k;
                            lemma_quotes_by_id_at(qs@, j);
                            if j != n {
                                lemma_quotes_by_id_at(before, j);
                            }
                        }
                        assert forall|k: Seq<char>| #[trigger]
                            quotes_by_id(before).insert(quote_id(quote), quote).contains_key(
                                k,
                            ) implies quotes_by_id(qs@).contains_key(k) by {
                            if k != quote_id(quote) {
                                let j = choose|j: int|
                                    0 <= j < before.len() && quote_id(#[trigger] before[j]) == k;
                                assert(qs@[j] == before[j]);
                            } else {
                                assert(quote_id(qs@[n]) == k);
                            }
                        }
                    }
                }
            },
        }
        self.quotes = qs;
    }

    /// Returns the quote stored under `identifier`.
    pub fn quote(&self, identifier: &str) -> (r: Option<&Quote<T>>)
        ensures
            r matches Some(q) ==> self.contents().contains_key(identifier@) && self.contents()[identifier@]
                == *q,
            r is None ==> !self.contents().contains_key(identifier@),
    {
        proof {
            use_type_invariant(self);
        }
        match self.position(identifier) {
            Some(i) => {
                proof {
                    lemma_quotes_by_id_at(self.quotes@, i as int);
                }
                Some(&self.quotes[i])
            },
            None => None,
        }
    }

    /// Returns all stored quotes.
    pub fn quotes(&self) -> (r: &Vec<Quote<T>>)
        ensures
            r@ == self.spec_quotes(),
            distinct_ids(r@),
    {
        proof {
            use_type_invariant(self);
        }
        &self.quotes
    }
}

impl<T: Copy> QuoteSelector<T> for QuoteStore<T> {
    open spec fn spec_select(&self, identifier: Seq<char>) -> Option<Quote<T>> {
        if self.contents().contains_key(identifier) {
            Some(self.contents()[identifier])
        } else {
            None
        }
    }

    fn select(&self, identifier: &str) -> (r: Option<Quote<T>>) {
        match self.quote(identifier) {
            Some(q) => Some(q.duplicate()),
            None => None,
        }
    }

    open spec fn spec_reference_date(&self) -> crate::time::Date {
        QuoteStore::spec_reference_date(self)
    }

    fn reference_date(&self) -> (r: crate::time::Date) {
        self.reference_date
    }
}

/// A quote added to a store is the quote then read back under its
/// identifier, and the quotes under other identifiers stay as they were.
pub proof fn lemma_quote_written_is_read<T: Copy>(
    m: Map<Seq<char>, Quote<T>>,
    quote: Quote<T>,
    other: Seq<char>,
)
    ensures
        m.insert(quote_id(quote), quote).contains_key(quote_id(quote)),
        m.insert(quote_id(quote), quote)[quote_id(quote)] == quote,
        other != quote_id(quote) ==> m.insert(quote_id(quote), quote).contains_key(other)
            == m.contains_key(other),
        other != quote_id(quote) && m.contains_key(other) ==> m.insert(quote_id(quote), quote)[other]
            == m[other],
{
}

} // verus!
