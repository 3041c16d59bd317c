//! Requests for the market data a pricer needs: constructed elements (curves,
//! surfaces, simulations) and FX rates.
use vstd::prelude::*;

use crate::currencies::Currency;
use crate::indices::{index_key, MarketIndex};

verus! {

/// A market object that a pricer needs built for an index.
#[derive(Clone, Debug)]
pub enum ConstructedElementRequest {
    /// A discount (or forward) curve.
    DiscountCurve { market_index: MarketIndex },
    /// A survival curve.
    CreditCurve { market_index: MarketIndex },
    /// A volatility surface.
    VolatilitySurface { market_index: MarketIndex },
    /// A path simulation.
    Simulation { market_index: MarketIndex },
}

/// The kind of a requested element (in declaration order) and the key of its
/// index.
pub open spec fn element_view(e: ConstructedElementRequest) -> (int, (int, Option<(Currency, Currency)>, Seq<char>)) {
    match e {
        ConstructedElementRequest::DiscountCurve { market_index } => (0, index_key(market_index)),
        ConstructedElementRequest::CreditCurve { market_index } => (1, index_key(market_index)),
        ConstructedElementRequest::VolatilitySurface { market_index } => (2, index_key(market_index)),
        ConstructedElementRequest::Simulation { market_index } => (3, index_key(market_index)),
    }
}

/// The views of a list of requested elements.
pub open spec fn elements_view(v: Seq<ConstructedElementRequest>) -> Seq<(int, (int, Option<(Currency, Currency)>, Seq<char>))> {
    v.map_values(|e: ConstructedElementRequest| element_view(e))
}

/// The keys of a list of indices.
pub open spec fn keys_view(v: Seq<MarketIndex>) -> Seq<(int, Option<(Currency, Currency)>, Seq<char>)> {
    v.map_values(|m: MarketIndex| index_key(m))
}

/// Discount curve requests for the given index keys.
pub open spec fn discount_curves(keys: Seq<(int, Option<(Currency, Currency)>, Seq<char>)>) -> Seq<(int, (int, Option<(Currency, Currency)>, Seq<char>))> {
    keys.map_values(|k: (int, Option<(Currency, Currency)>, Seq<char>)| (0int, k))
}

/// The candidates that are neither in `seen` nor repeat an earlier candidate,
/// in order.
pub open spec fn fresh_keys(
    seen: Seq<(int, Option<(Currency, Currency)>, Seq<char>)>,
    candidates: Seq<(int, Option<(Currency, Currency)>, Seq<char>)>,
) -> Seq<(int, Option<(Currency, Currency)>, Seq<char>)>
    decreases candidates.len(),
{
    if candidates.len() == 0 {
        seq![]
    } else {
        let prev = fresh_keys(seen, candidates.drop_last());
        let c = candidates.last();
        if seen.contains(c) || prev.contains(c) {
            prev
        } else {
            prev.push(c)
        }
    }
}

/// An FX rate request: the conversion of `base` into `quote`.
#[derive(Clone, Copy, Debug, PartialEq, Eq, Structural)]
pub struct FxRequest {
    pub base: Currency,
    pub quote: Currency,
}

impl FxRequest {
    /// The request of the conversion of `base` into `quote`.
    pub fn pair(base: Currency, quote: Currency) -> (r: FxRequest)
        ensures
            r == (FxRequest { base, quote }),
    {
        FxRequest { base, quote }
    }
}

/// The market data a pricer needs.
#[derive(Clone, Debug)]
pub struct MarketDataRequest {
    constructed_elements: Vec<ConstructedElementRequest>,
    fx_requests: Vec<FxRequest>,
}

impl MarketDataRequest {
    /// The requested elements.
    pub closed spec fn spec_elements(&self) -> Seq<(int, (int, Option<(Currency, Currency)>, Seq<char>))> {
        elements_view(self.constructed_elements@)
    }

    /// The requested FX conversions.
    pub closed spec fn spec_fx(&self) -> Seq<FxRequest> {
        self.fx_requests@
    }

    /// Replaces the requested elements.
    pub fn with_constructed_elements_request(self, elements: Vec<ConstructedElementRequest>) -> (r: Self)
        ensures
            r.spec_elements() == elements_view(elements@),
            r.spec_fx() == self.spec_fx(),
    {
        MarketDataRequest { constructed_elements: elements, fx_requests: self.fx_requests }
    }

    /// Replaces the requested FX conversions.
    pub fn with_fx_request(self, fx: Vec<FxRequest>) -> (r: Self)
        ensures
            r.spec_elements() == self.spec_elements(),
            r.spec_fx() == fx@,
    {
        MarketDataRequest { constructed_elements: self.constructed_elements, fx_requests: fx }
    }

    /// Returns the requested elements.
    pub fn constructed_elements(&self) -> (r: &Vec<ConstructedElementRequest>)
        ensures
            elements_view(r@) == self.spec_elements(),
    {
        &self.constructed_elements
    }

    /// Returns the requested FX conversions.
    pub fn fx_requests(&self) -> (r: &Vec<FxRequest>)
        ensures
            r@ == self.spec_fx(),
    {
        &self.fx_requests
    }
}

impl Default for MarketDataRequest {
    /// A request of nothing.
    fn default() -> (r: Self)
        ensures
            r.spec_elements() == Seq::<(int, (int, Option<(Currency, Currency)>, Seq<char>))>::empty(),
            r.spec_fx() == Seq::<FxRequest>::empty(),
    {
        let r = MarketDataRequest { constructed_elements: Vec::new(), fx_requests: Vec::new() };
        assert(elements_view(r.constructed_elements@) =~= Seq::empty());
        r
    }
}

/// Whether an index with the key of `m` is in `seen`.
fn seen_contains(seen: &Vec<MarketIndex>, m: &MarketIndex) -> (r: bool)
    ensures
        r == keys_view(seen@).contains(index_key(*m)),
{
    let mut i: usize = 0;
    while i < seen.len()
        invariant
            i <= seen@.len(),
            forall|j: int| 0 <= j < i ==> index_key(#[trigger] seen@[j]) != index_key(*m),
        decreases seen@.len() - i,
    {
        if seen[i].same_as(m) {
            assert(keys_view(seen@)[i as int] == index_key(*m));
            return true;
        }
        i = i + 1;
    }
    proof {
        if keys_view(seen@).contains(index_key(*m)) {
            let j = choose|j: int| 0 <= j < seen@.len() && keys_view(seen@)[j] == index_key(*m);
            assert(index_key(seen@[j]) == index_key(*m));
        }
    }
    false
}

/// Appends a discount curve request for each candidate index not seen yet,
/// recording it as seen.
pub fn push_fresh_discount_curves(
    elements: &mut Vec<ConstructedElementRequest>,
    seen: &mut Vec<MarketIndex>,
    candidates: &Vec<MarketIndex>,
)
    ensures
        elements_view(final(elements)@) == elements_view(old(elements)@) + discount_curves(
            fresh_keys(keys_view(old(seen)@), keys_view(candidates@)),
        ),
        keys_view(final(seen)@) == keys_view(old(seen)@) + fresh_keys(
            keys_view(old(seen)@),
            keys_view(candidates@),
        ),
{
    let ghost seen0 = keys_view(seen@);
    let ghost el0 = elements_view(elements@);
    let mut i: usize = 0;
    while i < candidates.len()
        invariant
            i <= candidates@.len(),
            seen0 == keys_view(old(seen)@),
            el0 == elements_view(old(elements)@),
            keys_view(seen@) == seen0 + fresh_keys(seen0, keys_view(candidates@).take(i as int)),
            elements_view(elements@) == el0 + discount_curves(
                fresh_keys(seen0, keys_view(candidates@).take(i as int)),
            ),
        decreases candidates@.len() - i,
    {
        let c = &candidates[i];
        let ghost cands = keys_view(candidates@);
        let ghost prev = fresh_keys(seen0, cands.take(i as int));
        proof {
            assert(cands.take(i as int + 1).drop_last() =~= cands.take(i as int));
            assert(cands.take(i as int + 1).last() == index_key(*c));
            assert((seen0 + prev).contains(index_key(*c)) <==> (seen0.contains(index_key(*c))
                || prev.contains(index_key(*c)))) by {
                if (seen0 + prev).contains(index_key(*c)) {
                    let j = choose|j: int| 0 <= j < (seen0 + prev).len() && (seen0 + prev)[j] == index_key(*c);
                    if j < seen0.len() {
                        assert(seen0[j] == index_key(*c));
                    } else {
                        assert(prev[j - seen0.len()] == index_key(*c));
                    }
                }
                if seen0.contains(index_key(*c)) {
                    let j = choose|j: int| 0 <= j < seen0.len() && seen0[j] == index_key(*c);
                    assert((seen0 + prev)[j] == index_key(*c));
                }
                if prev.contains(index_key(*c)) {
                    let j = choose|j: int| 0 <= j < prev.len() && prev[j] == index_key(*c);
                    assert((seen0 + prev)[seen0.len() + j] == index_key(*c));
                }
            }
        }
        if !seen_contains(seen, c) {
            let ghost seen_before = seen@;
            let ghost el_before = elements@;
            let m = c.duplicate();
            elements.push(ConstructedElementRequest::DiscountCurve { market_index: c.duplicate() });
            seen.push(m);
            proof {
                assert(keys_view(seen@) =~= keys_view(seen_before).push(index_key(*c)));
                assert(elements_view(elements@) =~= elements_view(el_before).push((0int, index_key(*c))));
                assert(discount_curves(prev.push(index_key(*c))) =~= discount_curves(prev).push((0int, index_key(*c))));
                assert(keys_view(seen@) =~= seen0 + prev.push(index_key(*c)));
                assert(elements_view(elements@) =~= el0 + discount_curves(prev.push(index_key(*c))));
            }
        }
        i = i + 1;
    }
    proof {
        assert(keys_view(candidates@).take(i as int) =~= keys_view(candidates@));
    }
}

/// The keys of the indices accepted by a discount policy, in order.
pub open spec fn accepted_keys(acc: Seq<Result<MarketIndex, crate::errors::QSError>>) -> Seq<(int, Option<(Currency, Currency)>, Seq<char>)>
    decreases acc.len(),
{
    if acc.len() == 0 {
        seq![]
    } else {
        let prev = accepted_keys(acc.drop_last());
        match acc.last() {
            Ok(m) => prev.push(index_key(m)),
            Err(_) => prev,
        }
    }
}

/// The accepted indices, in order.
pub fn accepted_indices(acc: &Vec<Result<MarketIndex, crate::errors::QSError>>) -> (r: Vec<MarketIndex>)
    ensures
        keys_view(r@) == accepted_keys(acc@),
{
    let mut out: Vec<MarketIndex> = Vec::new();
    let mut i: usize = 0;
    while i < acc.len()
        invariant
            i <= acc@.len(),
            keys_view(out@) == accepted_keys(acc@.take(i as int)),
        decreases acc@.len() - i,
    {
        let ghost before = out@;
        proof {
            assert(acc@.take(i as int + 1).drop_last() =~= acc@.take(i as int));
            assert(acc@.take(i as int + 1).last() == acc@[i as int]);
        }
        match &acc[i] {
            Ok(m) => {
                out.push(m.duplicate());
                assert(keys_view(out@) =~= keys_view(before).push(index_key(*m)));
            },
            Err(_) => {},
        }
        i = i + 1;
    }
    assert(acc@.take(i as int) =~= acc@);
    out
}

} // verus!
