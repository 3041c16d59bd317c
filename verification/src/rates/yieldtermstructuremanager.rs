//! Curve contexts: a term structure, its interest rate index and currency,
//! kept under a name and an id.
use vstd::prelude::*;

use crate::currencies::Currency;
use crate::text::str_eq;

verus! {

/// # CurveContext
/// A yield term structure, an interest rate index and a currency, together
/// with an id.
pub struct CurveContext<S, X> {
    id: usize,
    term_structure: S,
    interest_rate_index: X,
    currency: Currency,
}

impl<S, X> CurveContext<S, X> {
    /// The id, term structure, index and currency of the context.
    pub closed spec fn spec_parts(&self) -> (usize, S, X, Currency) {
        (self.id, self.term_structure, self.interest_rate_index, self.currency)
    }

    /// Creates a curve context.
    pub fn new(id: usize, term_structure: S, interest_rate_index: X, currency: Currency) -> (r: Self)
        ensures
            r.spec_parts() == (id, term_structure, interest_rate_index, currency),
    {
        CurveContext { id, term_structure, interest_rate_index, currency }
    }

    /// The id of the context.
    pub fn id(&self) -> (r: usize)
        ensures
            r == self.spec_parts().0,
    {
        self.id
    }

    /// The term structure of the context.
    pub fn term_structure(&self) -> (r: &S)
        ensures
            *r == self.spec_parts().1,
    {
        &self.term_structure
    }

    /// The interest rate index of the context.
    pub fn interest_rate_index(&self) -> (r: &X)
        ensures
            *r == self.spec_parts().2,
    {
        &self.interest_rate_index
    }

    /// The currency of the context.
    pub fn currency(&self) -> (r: Currency)
        ensures
            r == self.spec_parts().3,
    {
        self.currency
    }
}

/// The ids of the names, as text.
pub open spec fn names_view(names: Seq<(String, usize)>) -> Seq<(Seq<char>, usize)> {
    names.map_values(|e: (String, usize)| (e.0@, e.1))
}

/// The position of the first entry named `name`, if any.
pub open spec fn first_named(names: Seq<(Seq<char>, usize)>, name: Seq<char>) -> Option<int> {
    if exists|k: int| 0 <= k < names.len() && names[k].0 == name {
        Some(choose|k: int| 0 <= k < names.len() && names[k].0 == name && forall|j: int| 0 <= j < k ==> names[j].0 != name)
    } else {
        None
    }
}

/// # YieldTermStructureManager
/// Manages curve contexts: a context is added under a name, gets the next
/// id, and is retrieved by name or by id.
pub struct YieldTermStructureManager<S, X> {
    contexts: Vec<CurveContext<S, X>>,
    names: Vec<(String, usize)>,
}

impl<S, X> YieldTermStructureManager<S, X> {
    #[verifier::type_invariant]
    spec fn inv(self) -> bool {
        &&& forall|i: int| 0 <= i < self.contexts@.len() ==> #[trigger] self.contexts@[i].spec_parts().0 == i
        &&& forall|j: int| 0 <= j < self.names@.len() ==> #[trigger] self.names@[j].1 < self.contexts@.len()
    }

    /// The contexts, in the order they were added (a context's id is its position).
    pub closed spec fn spec_contexts(&self) -> Seq<CurveContext<S, X>> {
        self.contexts@
    }

    /// The names with the id of the context each was added with, in order.
    pub closed spec fn spec_names(&self) -> Seq<(Seq<char>, usize)> {
        names_view(self.names@)
    }

    /// Creates an empty manager.
    pub fn new() -> (r: Self)
        ensures
            r.spec_contexts() == Seq::<CurveContext<S, X>>::empty(),
            r.spec_names() == Seq::<(Seq<char>, usize)>::empty(),
    {
        let r = YieldTermStructureManager { contexts: Vec::new(), names: Vec::new() };
        assert(names_view(r.names@) =~= Seq::empty());
        r
    }

    /// Adds a curve context under `name`; its id is the number of contexts
    /// added before it.
    pub fn add_curve_context(&mut self, name: String, term_structure: S, interest_rate_index: X, currency: Currency)
        ensures
            final(self).spec_contexts().len() == old(self).spec_contexts().len() + 1,
            final(self).spec_contexts().drop_last() == old(self).spec_contexts(),
            final(self).spec_contexts().last().spec_parts() == (
                old(self).spec_contexts().len() as usize,
                term_structure,
                interest_rate_index,
                currency,
            ),
            final(self).spec_names() == old(self).spec_names().push((name@, old(self).spec_contexts().len() as usize)),
    {
        proof {
            use_type_invariant(&*self);
        }
        let id = self.contexts.len();
        let context = CurveContext::new(id, term_structure, interest_rate_index, currency);
        let ghost old_names = self.names@;
        let ghost old_contexts = self.contexts@;
        let mut taken = YieldTermStructureManager { contexts: Vec::new(), names: Vec::new() };
        std::mem::swap(&mut taken, self);
        let YieldTermStructureManager { mut contexts, mut names } = taken;
        contexts.push(context);
        names.push((name, id));
        assert(names_view(names@) =~= names_view(old_names).push((name@, id)));
        assert(contexts@.drop_last() =~= old_contexts);
        *self = YieldTermStructureManager { contexts, names };
    }

    /// The context added under `name` (the first one, if the name was used
    /// more than once), if any.
    pub fn get_curve_context_by_name(&self, name: String) -> (r: Option<&CurveContext<S, X>>)
        ensures
            r == match first_named(self.spec_names(), name@) {
                Some(k) => Some(&self.spec_contexts()[self.spec_names()[k].1 as int]),
                None => None,
            },
    {
        proof {
            use_type_invariant(self);
        }
        let mut i: usize = 0;
        while i < self.names.len()
            invariant
                i <= self.names@.len(),
                forall|j: int| 0 <= j < i ==> #[trigger] names_view(self.names@)[j].0 != name@,
            decreases self.names@.len() - i,
        {
            if str_eq(self.names[i].0.as_str(), name.as_str()) {
                proof {
                    use_type_invariant(self);
                }
                let id = self.names[i].1;
                proof {
                    let nv = names_view(self.names@);
                    assert(nv[i as int].0 == name@);
                    let k = first_named(nv, name@)->Some_0;
                    assert(0 <= k < nv.len() && nv[k].0 == name@);
                    if k < i {
                        assert(nv[k].0 != name@);
                    }
                    if k > i {
                        assert(nv[i as int].0 != name@);
                    }
                    assert(k == i);
                }
                return Some(&self.contexts[id]);
            }
            i = i + 1;
        }
        proof {
            let nv = names_view(self.names@);
            assert(!(exists|k: int| 0 <= k < nv.len() && nv[k].0 == name@));
        }
        None
    }

    /// The context with the given id, if any.
    pub fn get_curve_context_by_id(&self, id: usize) -> (r: Option<&CurveContext<S, X>>)
        ensures
            r == if id < self.spec_contexts().len() {
                Some(&self.spec_contexts()[id as int])
            } else {
                None
            },
    {
        if id < self.contexts.len() {
            Some(&self.contexts[id])
        } else {
            None
        }
    }
}

} // verus!
