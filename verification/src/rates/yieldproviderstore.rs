//! Yield providers kept under a name and an id.
use vstd::prelude::*;

use crate::text::str_eq;

verus! {

/// The position of the first name equal to `name`, if any.
pub open spec fn first_name_position(names: Seq<Seq<char>>, name: Seq<char>) -> Option<int> {
    if exists|k: int| 0 <= k < names.len() && names[k] == name {
        Some(choose|k: int| 0 <= k < names.len() && names[k] == name && forall|j: int| 0 <= j < k ==> names[j] != name)
    } else {
        None
    }
}

/// # YieldProviderStore
/// Yield providers, each added under a name; a provider's id is its position.
pub struct YieldProviderStore<P> {
    providers: Vec<P>,
    names: Vec<String>,
}

impl<P> YieldProviderStore<P> {
    #[verifier::type_invariant]
    spec fn inv(self) -> bool {
        self.providers@.len() == self.names@.len()
    }

    /// The providers, in the order they were added.
    pub closed spec fn spec_providers(&self) -> Seq<P> {
        self.providers@
    }

    /// The names of the providers, in the same order.
    pub closed spec fn spec_names(&self) -> Seq<Seq<char>> {
        self.names@.map_values(|s: String| s@)
    }

    /// Creates an empty store.
    pub fn new() -> (r: Self)
        ensures
            r.spec_providers() == Seq::<P>::empty(),
            r.spec_names() == Seq::<Seq<char>>::empty(),
    {
        let r = YieldProviderStore { providers: Vec::new(), names: Vec::new() };
        assert(r.spec_names() =~= Seq::empty());
        r
    }

    /// Adds a provider under `name`.
    pub fn add_provider(&mut self, name: String, yield_provider: P)
        ensures
            final(self).spec_providers() == old(self).spec_providers().push(yield_provider),
            final(self).spec_names() == old(self).spec_names().push(name@),
    {
        proof {
            use_type_invariant(&*self);
        }
        let ghost old_names = self.spec_names();
        let mut taken = YieldProviderStore { providers: Vec::new(), names: Vec::new() };
        std::mem::swap(&mut taken, self);
        let YieldProviderStore { mut providers, mut names } = taken;
        providers.push(yield_provider);
        names.push(name);
        assert(names@.map_values(|s: String| s@) =~= old_names.push(name@));
        *self = YieldProviderStore { providers, names };
    }

    /// The provider added under `name` (the first one, if the name was used
    /// more than once), if any.
    pub fn get_provider_by_name(&self, name: String) -> (r: Option<&P>)
        ensures
            r == match first_name_position(self.spec_names(), name@) {
                Some(k) => Some(&self.spec_providers()[k]),
                None => None,
            },
    {
        proof {
            use_type_invariant(self);
        }
        let mut i: usize = 0;
        while i < self.names.len()
            invariant
                i <= self.names@.len(),
                self.names@.len() == self.providers@.len(),
                forall|j: int| 0 <= j < i ==> #[trigger] self.spec_names()[j] != name@,
            decreases self.names@.len() - i,
        {
            if str_eq(self.names[i].as_str(), name.as_str()) {
                proof {
                    let nv = self.spec_names();
                    assert(nv[i as int] == name@);
                    let k = first_name_position(nv, name@)->Some_0;
                    if k < i {
                        assert(nv[k] != name@);
                    }
                    if k > i {
                        assert(nv[i as int] != name@);
                    }
                }
                return Some(&self.providers[i]);
            }
            i = i + 1;
        }
        proof {
            let nv = self.spec_names();
            assert(!(exists|k: int| 0 <= k < nv.len() && nv[k] == name@));
        }
        None
    }

    /// The provider with the given id, if any.
    pub fn get_provider_by_id(&self, id: usize) -> (r: Option<&P>)
        ensures
            r == if id < self.spec_providers().len() {
                Some(&self.spec_providers()[id as int])
            } else {
                None
            },
    {
        if id < self.providers.len() {
            Some(&self.providers[id])
        } else {
            None
        }
    }
}

} // verus!
