//! FX spot rates with triangulation through intermediate currencies.
use vstd::prelude::*;

use crate::currencies::Currency;
use crate::errors::QSError;

verus! {

/// Serde-friendly FX spot record: 1 `base` = `rate` `quote`.
#[derive(Debug, Clone, Copy)]
pub struct FxRateRecord<R> {
    /// Base currency.
    pub base: Currency,
    /// Quote currency.
    pub quote: Currency,
    /// 1 unit of base = `rate` units of quote.
    pub rate: R,
}

/// One step of a conversion: a stored rate used as it is (`from` = base,
/// `to` = quote of the stored pair) or inverted (`from` = quote, `to` = base).
#[derive(Debug, Clone, Copy, PartialEq)]
pub struct FxLeg<R> {
    pub from: Currency,
    pub to: Currency,
    pub rate: R,
    pub inverted: bool,
}

/// The stored rates by (base, quote) pair, for an association list whose
/// pairs are pairwise distinct.
pub open spec fn rate_map<R>(s: Seq<((Currency, Currency), R)>) -> Map<(Currency, Currency), R> {
    Map::new(
        |k: (Currency, Currency)| exists|i: int| 0 <= i < s.len() && s[i].0 == k,
        |k: (Currency, Currency)| s[choose|i: int| 0 <= i < s.len() && s[i].0 == k].1,
    )
}

/// No pair occurs twice in the association list.
pub open spec fn distinct_pairs<R>(s: Seq<((Currency, Currency), R)>) -> bool {
    forall|i: int, j: int| 0 <= i < s.len() && 0 <= j < s.len() && i != j ==> s[i].0 != s[j].0
}

proof fn lemma_rate_map_at<R>(s: Seq<((Currency, Currency), R)>, i: int)
    requires
        distinct_pairs(s),
        0 <= i < s.len(),
    ensures
        rate_map(s).contains_key(s[i].0),
        rate_map(s)[s[i].0] == s[i].1,
{
    let k = s[i].0;
    assert(exists|j: int| 0 <= j < s.len() && s[j].0 == k);
    let j = choose|j: int| 0 <= j < s.len() && s[j].0 == k;
    assert(j == i);
}

/// The leg is a stored rate, used directly or inverted.
pub open spec fn is_stored_leg<R>(m: Map<(Currency, Currency), R>, leg: FxLeg<R>) -> bool {
    if leg.inverted {
        m.contains_key((leg.to, leg.from)) && m[(leg.to, leg.from)] == leg.rate
    } else {
        m.contains_key((leg.from, leg.to)) && m[(leg.from, leg.to)] == leg.rate
    }
}

/// `legs` converts `base` into `quote` through stored rates: consecutive legs
/// connect, the first starts at `base` and the last ends at `quote` (no legs
/// when `base == quote`).
pub open spec fn is_conversion_path<R>(
    m: Map<(Currency, Currency), R>,
    legs: Seq<FxLeg<R>>,
    base: Currency,
    quote: Currency,
) -> bool {
    &&& legs.len() == 0 ==> base == quote
    &&& legs.len() > 0 ==> legs[0].from == base && legs[legs.len() - 1].to == quote
    &&& forall|i: int| 0 <= i < legs.len() - 1 ==> #[trigger] legs[i].to == legs[i + 1].from
    &&& forall|i: int| 0 <= i < legs.len() ==> is_stored_leg(m, #[trigger] legs[i])
}

/// Some chain of stored rates converts `base` into `quote`.
pub open spec fn connected<R>(m: Map<(Currency, Currency), R>, base: Currency, quote: Currency) -> bool {
    exists|legs: Seq<FxLeg<R>>| is_conversion_path(m, legs, base, quote)
}

/// Two currencies are quoted against each other by a stored rate.
pub open spec fn adjacent<R>(m: Map<(Currency, Currency), R>, a: Currency, b: Currency) -> bool {
    m.contains_key((a, b)) || m.contains_key((b, a))
}

/// Position of a currency in the declaration order.
pub open spec fn currency_ord(c: Currency) -> int {
    match c {
        Currency::USD => 0,
        Currency::EUR => 1,
        Currency::GBP => 2,
        Currency::JPY => 3,
        Currency::CHF => 4,
        Currency::CAD => 5,
        Currency::AUD => 6,
        Currency::CNY => 7,
        Currency::SEK => 8,
        Currency::NOK => 9,
        Currency::DKK => 10,
        Currency::BRL => 11,
        Currency::CLP => 12,
        Currency::CLF => 13,
        Currency::COP => 14,
        Currency::MXN => 15,
        Currency::PEN => 16,
        Currency::ZAR => 17,
    }
}

/// Distinct currencies have distinct positions.
proof fn lemma_currency_ord_injective(a: Currency, b: Currency)
    requires
        currency_ord(a) == currency_ord(b),
    ensures
        a == b,
{
    match b {
        Currency::USD => {},
        Currency::EUR => {},
        Currency::GBP => {},
        Currency::JPY => {},
        Currency::CHF => {},
        Currency::CAD => {},
        Currency::AUD => {},
        Currency::CNY => {},
        Currency::SEK => {},
        Currency::NOK => {},
        Currency::DKK => {},
        Currency::BRL => {},
        Currency::CLP => {},
        Currency::CLF => {},
        Currency::COP => {},
        Currency::MXN => {},
        Currency::PEN => {},
        Currency::ZAR => {},
    }
}

/// There are 18 currencies: a sequence of distinct currencies has at most 18 elements.
proof fn lemma_distinct_currencies_bound(s: Seq<Currency>)
    requires
        s.no_duplicates(),
    ensures
        s.len() <= 18,
{
    let t = s.map_values(|c: Currency| currency_ord(c));
    assert forall|i: int, j: int| 0 <= i < t.len() && 0 <= j < t.len() && i != j implies t[i]
        != t[j] by {
        assert(s[i] != s[j]);
        if t[i] == t[j] {
            lemma_currency_ord_injective(s[i], s[j]);
        }
    }
    assert(t.no_duplicates());
    t.unique_seq_to_set();
    vstd::set_lib::lemma_int_range(0, 18);
    assert(t.to_set().subset_of(vstd::set_lib::set_int_range(0, 18)));
    vstd::set_lib::lemma_len_subset(t.to_set(), vstd::set_lib::set_int_range(0, 18));
}

/// A set of currencies that contains `base` and is closed under stored
/// rates contains the end of every conversion path from `base`.
proof fn lemma_closed_set_contains_path_end<R>(
    m: Map<(Currency, Currency), R>,
    v: Set<Currency>,
    legs: Seq<FxLeg<R>>,
    base: Currency,
    quote: Currency,
)
    requires
        v.contains(base),
        forall|a: Currency, b: Currency| #![trigger adjacent(m, a, b)] v.contains(a) && adjacent(m, a, b) ==> v.contains(b),
        is_conversion_path(m, legs, base, quote),
    ensures
        v.contains(quote),
    decreases legs.len(),
{
    if legs.len() > 0 {
        let n = legs.len() - 1;
        let prefix = legs.subrange(0, n as int);
        let mid = legs[n].from;
        if n > 0 {
            assert(prefix[n - 1].to == legs[n - 1].to);
            assert(legs[n - 1].to == legs[n].from);
            assert(is_conversion_path(m, prefix, base, mid));
            lemma_closed_set_contains_path_end(m, v, prefix, base, mid);
        }
        assert(is_stored_leg(m, legs[n]));
        assert(adjacent(m, mid, quote));
    }
}

/// The rates that records give when inserted in order: for each pair, the
/// rate of its last record.
pub open spec fn records_map<R>(records: Seq<FxRateRecord<R>>) -> Map<(Currency, Currency), R>
    decreases records.len(),
{
    if records.len() == 0 {
        Map::empty()
    } else {
        let last = records.last();
        records_map(records.drop_last()).insert((last.base, last.quote), last.rate)
    }
}

/// Stores FX spot rates.
///
/// Rates are stored as directed pairs `(base, quote) -> rate` meaning
/// *1 unit of base = rate units of quote*. A conversion between two
/// currencies with no direct rate is found by breadth-first search through
/// intermediate currencies.
#[derive(Debug)]
pub struct FxStore<R> {
    exchange_rate_map: Vec<((Currency, Currency), R)>,
}

impl<R> FxStore<R> {
    #[verifier::type_invariant]
    spec fn inv(self) -> bool {
        distinct_pairs(self.exchange_rate_map@)
    }

    /// The stored rates by (base, quote) pair.
    pub closed spec fn rates(&self) -> Map<(Currency, Currency), R> {
        rate_map(self.exchange_rate_map@)
    }
}

impl<R: Copy> FxStore<R> {
    /// Creates an empty store.
    pub fn new() -> (r: Self)
        ensures
            r.rates() == Map::<(Currency, Currency), R>::empty(),
    {
        let r = Self { exchange_rate_map: Vec::new() };
        assert(r.rates() =~= Map::<(Currency, Currency), R>::empty());
        r
    }

    /// The stored rates, one entry per (base, quote) pair, each labelled by
    /// its pair.
    pub fn pillars(&self) -> (r: Vec<((Currency, Currency), R)>)
        ensures
            distinct_pairs(r@),
            rate_map(r@) == self.rates(),
    {
        proof {
            use_type_invariant(self);
        }
        let mut out: Vec<((Currency, Currency), R)> = Vec::new();
        let mut i: usize = 0;
        while i < self.exchange_rate_map.len()
            invariant
                i <= self.exchange_rate_map@.len(),
                out@ == self.exchange_rate_map@.take(i as int),
            decreases self.exchange_rate_map@.len() - i,
        {
            out.push(self.exchange_rate_map[i]);
            proof {
                assert(self.exchange_rate_map@.take(i as int + 1) =~= self.exchange_rate_map@.take(
                    i as int,
                ).push(self.exchange_rate_map@[i as int]));
            }
            i = i + 1;
        }
        proof {
            assert(out@ =~= self.exchange_rate_map@);
        }
        out
    }

    /// Creates a store from records; a later record for the same pair
    /// overwrites an earlier one.
    pub fn from_records(records: Vec<FxRateRecord<R>>) -> (r: Self)
        ensures
            r.rates() == records_map(records@),
            forall|k: (Currency, Currency)|
                #[trigger] r.rates().contains_key(k) <==> exists|i: int|
                    0 <= i < records@.len() && (records@[i].base, records@[i].quote) == k,
    {
        let mut store = Self::new();
        let mut i: usize = 0;
        while i < records.len()
            invariant
                i <= records@.len(),
                store.rates() == records_map(records@.take(i as int)),
                forall|k: (Currency, Currency)|
                    #[trigger] store.rates().contains_key(k) <==> exists|j: int|
                        0 <= j < i && (records@[j].base, records@[j].quote) == k,
            decreases records@.len() - i,
        {
            let rec = records[i];
            store.add_fx_rate(rec.base, rec.quote, rec.rate);
            proof {
                assert(records@.take(i as int + 1).drop_last() =~= records@.take(i as int));
                assert(records@.take(i as int + 1).last() == rec);
                assert forall|k: (Currency, Currency)|
                    #[trigger] store.rates().contains_key(k) <==> exists|j: int|
                        0 <= j < i + 1 && (records@[j].base, records@[j].quote) == k by {
                    if k == (rec.base, rec.quote) {
                        assert((records@[i as int].base, records@[i as int].quote) == k);
                    }
                }
            }
            i = i + 1;
        }
        assert(records@.take(i as int) =~= records@);
        store
    }

    /// Position of a pair in the association list.
    fn find_pair(&self, base: Currency, quote: Currency) -> (r: Option<usize>)
        ensures
            r matches Some(i) ==> i < self.exchange_rate_map@.len()
                && self.exchange_rate_map@[i as int].0 == (base, quote),
            r is None ==> forall|j: int|
                0 <= j < self.exchange_rate_map@.len() ==> self.exchange_rate_map@[j].0 != (
                    base,
                    quote,
                ),
    {
        let mut i: usize = 0;
        let n: usize = self.exchange_rate_map.len();
        while i < n
            invariant
                n == self.exchange_rate_map@.len(),
                i <= n,
                forall|j: int|
                    0 <= j < i ==> self.exchange_rate_map@[j].0 != (base, quote),
            decreases n - i,
        {
            let key = self.exchange_rate_map[i].0;
            if key.0 == base && key.1 == quote {
                return Some(i);
            }
            i = i + 1;
        }
        None
    }

    /// Inserts a spot rate: 1 `base` = `rate` `quote`.
    pub fn add_fx_rate(&mut self, base: Currency, quote: Currency, rate: R)
        ensures
            final(self).rates() == old(self).rates().insert((base, quote), rate),
    {
        proof {
            use_type_invariant(&*self);
        }
        let ghost before = self.exchange_rate_map@;
        let pos = self.find_pair(base, quote);
        let mut entries: Vec<((Currency, Currency), R)> = Vec::new();
        std::mem::swap(&mut entries, &mut self.exchange_rate_map);
        let ghost at: int;
        match pos {
            Some(i) => {
                entries.set(i, ((base, quote), rate));
                proof {
                    at = i as int;
                }
            },
            None => {
                entries.push(((base, quote), rate));
                proof {
                    at = before.len() as int;
                }
            },
        }
        proof {
            let k0 = (base, quote);
            assert(entries@[at].0 == k0);
            assert forall|k: int| 0 <= k < entries@.len() && k != at implies #[trigger] entries@[k]
                == before[k] by {}
            assert(distinct_pairs(entries@));
            assert forall|c: (Currency, Currency)| #![auto]
                rate_map(entries@).contains_key(c) == rate_map(before).insert(
                    k0,
                    rate,
                ).contains_key(c) by {
                if c != k0 && rate_map(before).contains_key(c) {
                    let k = choose|k: int| 0 <= k < before.len() && before[k].0 == c;
                    assert(entries@[k].0 == c);
                }
            }
            assert forall|c: (Currency, Currency)| #[trigger]
                rate_map(entries@).contains_key(c) implies rate_map(entries@)[c] == rate_map(
                before,
            ).insert(k0, rate)[c] by {
                let k = choose|k: int| 0 <= k < entries@.len() && entries@[k].0 == c;
                lemma_rate_map_at(entries@, k);
                if c != k0 {
                    lemma_rate_map_at(before, k);
                }
            }
            assert(rate_map(entries@) =~= rate_map(before).insert(k0, rate));
        }
        self.exchange_rate_map = entries;
    }
}

/// Whether `c` occurs in `v`.
fn currency_in(v: &Vec<Currency>, c: Currency) -> (r: bool)
    ensures
        r == v@.contains(c),
{
    let mut i: usize = 0;
    while i < v.len()
        invariant
            i <= v@.len(),
            forall|j: int| 0 <= j < i ==> v@[j] != c,
        decreases v@.len() - i,
    {
        if v[i] == c {
            return true;
        }
        i = i + 1;
    }
    false
}

/// A copy of `path` with `leg` appended.
fn extend_path<R: Copy>(path: &Vec<FxLeg<R>>, leg: FxLeg<R>) -> (r: Vec<FxLeg<R>>)
    ensures
        r@ == path@.push(leg),
{
    let mut out: Vec<FxLeg<R>> = Vec::new();
    let mut i: usize = 0;
    while i < path.len()
        invariant
            i <= path@.len(),
            out@ == path@.subrange(0, i as int),
        decreases path@.len() - i,
    {
        out.push(path[i]);
        i = i + 1;
        proof {
            assert(out@ =~= path@.subrange(0, i as int));
        }
    }
    out.push(leg);
    proof {
        assert(out@ =~= path@.push(leg));
    }
    out
}

/// Appending a stored leg that starts where a conversion path ends extends the path.
proof fn lemma_path_push<R>(
    m: Map<(Currency, Currency), R>,
    legs: Seq<FxLeg<R>>,
    base: Currency,
    mid: Currency,
    leg: FxLeg<R>,
)
    requires
        is_conversion_path(m, legs, base, mid),
        leg.from == mid,
        is_stored_leg(m, leg),
    ensures
        is_conversion_path(m, legs.push(leg), base, leg.to),
{
    let p = legs.push(leg);
    assert forall|i: int| 0 <= i < p.len() - 1 implies #[trigger] p[i].to == p[i + 1].from by {
        if i < legs.len() - 1 {
            assert(legs[i].to == legs[i + 1].from);
        }
    }
    assert forall|i: int| 0 <= i < p.len() implies is_stored_leg(m, #[trigger] p[i]) by {
        if i < legs.len() {
            assert(is_stored_leg(m, legs[i]));
        }
    }
}

/// Dropping the last leg of a conversion path gives a conversion path to
/// where that leg starts, and that leg joins two adjacent currencies.
proof fn lemma_path_drop_last<R>(
    m: Map<(Currency, Currency), R>,
    legs: Seq<FxLeg<R>>,
    base: Currency,
    quote: Currency,
)
    requires
        is_conversion_path(m, legs, base, quote),
        legs.len() > 0,
    ensures
        is_conversion_path(m, legs.drop_last(), base, legs.last().from),
        adjacent(m, legs.last().from, quote),
{
    let n = legs.len() - 1;
    let prefix = legs.drop_last();
    if n > 0 {
        assert(prefix[n - 1].to == legs[n - 1].to);
        assert(legs[n - 1].to == legs[n].from);
    }
    assert forall|i: int| 0 <= i < prefix.len() - 1 implies #[trigger] prefix[i].to == prefix[i + 1].from by {
        assert(legs[i].to == legs[i + 1].from);
    }
    assert forall|i: int| 0 <= i < prefix.len() implies is_stored_leg(m, #[trigger] prefix[i]) by {
        assert(is_stored_leg(m, legs[i]));
    }
    assert(is_stored_leg(m, legs[n]));
}

/// Every currency that a conversion path from `base` of at most `n` legs
/// reaches is among `v`.
spec fn reached_within<R>(m: Map<(Currency, Currency), R>, base: Currency, n: int, v: Seq<Currency>) -> bool {
    forall|c: Currency, q: Seq<FxLeg<R>>|
        #[trigger] is_conversion_path(m, q, base, c) && q.len() <= n ==> v.contains(c)
}

/// Each path `p[j]` is no longer than any conversion path from `base` to `v[j]`.
spec fn shortest_to_each<R>(
    m: Map<(Currency, Currency), R>,
    base: Currency,
    v: Seq<Currency>,
    p: Seq<Vec<FxLeg<R>>>,
) -> bool {
    forall|j: int, q: Seq<FxLeg<R>>|
        0 <= j < v.len() && #[trigger] is_conversion_path(m, q, base, v[j]) ==> p[j]@.len() <= q.len()
}

/// The paths come in breadth-first order: their lengths never decrease, and
/// none is more than one leg longer than the path at `head`.
spec fn breadth_first_levels<R>(p: Seq<Vec<FxLeg<R>>>, head: int) -> bool {
    &&& forall|i: int, j: int| 0 <= i <= j < p.len() ==> #[trigger] p[i]@.len() <= #[trigger] p[j]@.len()
    &&& forall|j: int| 0 <= j < p.len() ==> #[trigger] p[j]@.len() <= p[head]@.len() + 1
}

/// The single leg that uses the stored `(base, quote)` rate directly.
pub open spec fn direct_leg<R>(m: Map<(Currency, Currency), R>, base: Currency, quote: Currency) -> FxLeg<R> {
    FxLeg { from: base, to: quote, rate: m[(base, quote)], inverted: false }
}

impl<R: Copy> FxStore<R> {
    /// Retrieves the conversion `base -> quote` as a chain of stored rates,
    /// composing through intermediate currencies (breadth-first, so with the
    /// fewest legs) when no direct rate is stored. The exchange rate is the product of the legs'
    /// rates, each inverted leg contributing the reciprocal of its rate.
    pub fn get_fx_rate(&self, base: Currency, quote: Currency) -> (r: Result<
        Vec<FxLeg<R>>,
        QSError,
    >)
        ensures
            r matches Ok(legs) ==> is_conversion_path(self.rates(), legs@, base, quote),
            r matches Ok(legs) ==> forall|p: Seq<FxLeg<R>>|
                #[trigger] is_conversion_path(self.rates(), p, base, quote) ==> legs@.len() <= p.len(),
            r is Err <==> !connected(self.rates(), base, quote),
            r matches Err(e) ==> e == QSError::NoExchangeRatePath(base, quote),
            base == quote ==> (r matches Ok(legs) && legs@.len() == 0),
            base != quote && self.rates().contains_key((base, quote)) ==> (r matches Ok(legs)
                && legs@ == seq![direct_leg(self.rates(), base, quote)]),
            base != quote && adjacent(self.rates(), base, quote) ==> (r matches Ok(legs)
                && legs@.len() == 1),
    {
        proof {
            use_type_invariant(self);
        }
        let ghost m = self.rates();
        if base == quote {
            let legs: Vec<FxLeg<R>> = Vec::new();
            assert(is_conversion_path(m, legs@, base, quote));
            return Ok(legs);
        }
        match self.find_pair(base, quote) {
            Some(i) => {
                let leg = FxLeg { from: base, to: quote, rate: self.exchange_rate_map[i].1, inverted: false };
                let mut legs: Vec<FxLeg<R>> = Vec::new();
                legs.push(leg);
                proof {
                    lemma_rate_map_at(self.exchange_rate_map@, i as int);
                    assert(is_stored_leg(m, legs@[0]));
                    assert(legs@ =~= seq![direct_leg(m, base, quote)]);
                    assert(is_conversion_path(m, legs@, base, quote));
                }
                return Ok(legs);
            },
            None => {
                proof {
                    assert(!m.contains_key((base, quote)));
                }
            },
        }
        let mut visited: Vec<Currency> = Vec::new();
        let mut paths: Vec<Vec<FxLeg<R>>> = Vec::new();
        visited.push(base);
        paths.push(Vec::new());
        let mut head: usize = 0;
        let n: usize = self.exchange_rate_map.len();
        proof {
            assert(visited@.no_duplicates());
            assert(is_conversion_path(m, paths@[0]@, base, visited@[0]));
            assert forall|c: Currency, q: Seq<FxLeg<R>>|
                #[trigger] is_conversion_path(m, q, base, c) && q.len() <= 0 implies visited@.contains(c) by {
                assert(visited@[0] == c);
            }
        }
        while head < visited.len()
            invariant
                distinct_pairs(self.exchange_rate_map@),
                m == rate_map(self.exchange_rate_map@),
                n == self.exchange_rate_map@.len(),
                base != quote,
                !m.contains_key((base, quote)),
                visited@.len() == paths@.len(),
                visited@.len() >= 1,
                visited@[0] == base,
                paths@[0]@.len() == 0,
                head <= visited@.len(),
                visited@.no_duplicates(),
                !visited@.contains(quote),
                forall|j: int|
                    0 <= j < visited@.len() ==> is_conversion_path(
                        m,
                        #[trigger] paths@[j]@,
                        base,
                        visited@[j],
                    ),
                forall|j: int, c: Currency|
                    #![trigger visited@[j], adjacent(m, visited@[j], c)]
                    0 <= j < head && adjacent(m, visited@[j], c) ==> visited@.contains(c),
                shortest_to_each(m, base, visited@, paths@),
                head < visited@.len() ==> breadth_first_levels(paths@, head as int),
                head < visited@.len() ==> reached_within(m, base, paths@[head as int]@.len() as int, visited@),
            decreases 18 - head,
        {
            proof {
                lemma_distinct_currencies_bound(visited@);
            }
            let cur = visited[head];
            let ghost level = paths@[head as int]@.len() as int;
            let mut k: usize = 0;
            while k < n
                invariant
                    distinct_pairs(self.exchange_rate_map@),
                    m == rate_map(self.exchange_rate_map@),
                    n == self.exchange_rate_map@.len(),
                    base != quote,
                    !m.contains_key((base, quote)),
                    visited@.len() == paths@.len(),
                    visited@.len() >= 1,
                    visited@[0] == base,
                    paths@[0]@.len() == 0,
                    head < visited@.len(),
                    cur == visited@[head as int],
                    level == paths@[head as int]@.len(),
                    k <= n,
                    visited@.no_duplicates(),
                    !visited@.contains(quote),
                    forall|j: int|
                        0 <= j < visited@.len() ==> is_conversion_path(
                            m,
                            #[trigger] paths@[j]@,
                            base,
                            visited@[j],
                        ),
                    forall|j: int, c: Currency|
                        #![trigger visited@[j], adjacent(m, visited@[j], c)]
                        0 <= j < head && adjacent(m, visited@[j], c) ==> visited@.contains(c),
                    forall|e: int|
                        0 <= e < k ==> (#[trigger] self.exchange_rate_map@[e].0.0 == cur
                            ==> visited@.contains(self.exchange_rate_map@[e].0.1)),
                    forall|e: int|
                        0 <= e < k ==> (#[trigger] self.exchange_rate_map@[e].0.1 == cur
                            ==> visited@.contains(self.exchange_rate_map@[e].0.0)),
                    shortest_to_each(m, base, visited@, paths@),
                    breadth_first_levels(paths@, head as int),
                    reached_within(m, base, level, visited@),
                decreases n - k,
            {
                let entry = self.exchange_rate_map[k];
                let src = entry.0.0;
                let dst = entry.0.1;
                let ghost old_visited = visited@;
                let ghost old_paths = paths@;
                proof {
                    lemma_rate_map_at(self.exchange_rate_map@, k as int);
                }
                if src == cur && !currency_in(&visited, dst) {
                    let leg = FxLeg { from: cur, to: dst, rate: entry.1, inverted: false };
                    proof {
                        lemma_path_push(m, paths@[head as int]@, base, cur, leg);
                    }
                    let path = extend_path(&paths[head], leg);
                    proof {
                        assert forall|q: Seq<FxLeg<R>>| is_conversion_path(m, q, base, dst) implies path@.len() <= q.len() by {
                            if q.len() <= level {
                                assert(visited@.contains(dst));
                            }
                        }
                    }
                    if dst == quote {
                        proof {
                            if adjacent(m, base, quote) && head > 0 {
                                assert(visited@.contains(quote));
                            }
                        }
                        return Ok(path);
                    }
                    visited.push(dst);
                    paths.push(path);
                    proof {
                        assert forall|c: Currency| old_visited.contains(c) implies visited@.contains(c) by {
                            let j = choose|j: int| 0 <= j < old_visited.len() && old_visited[j] == c;
                            assert(visited@[j] == c);
                        }
                        assert(visited@[visited@.len() - 1] == dst);
                        assert forall|j: int| 0 <= j < visited@.len() implies is_conversion_path(
                            m,
                            #[trigger] paths@[j]@,
                            base,
                            visited@[j],
                        ) by {
                            if j < old_visited.len() {
                                assert(visited@[j] == old_visited[j]);
                            }
                        }
                        assert forall|j: int, q: Seq<FxLeg<R>>|
                            0 <= j < visited@.len() && #[trigger] is_conversion_path(m, q, base, visited@[j])
                            implies paths@[j]@.len() <= q.len() by {
                            if j < old_visited.len() {
                                assert(visited@[j] == old_visited[j]);
                                assert(paths@[j] == old_paths[j]);
                            }
                        }
                        assert forall|i: int, j: int| 0 <= i <= j < paths@.len() implies
                            #[trigger] paths@[i]@.len() <= #[trigger] paths@[j]@.len() by {
                            if j < old_paths.len() {
                                assert(paths@[i] == old_paths[i]);
                                assert(paths@[j] == old_paths[j]);
                            } else if i < old_paths.len() {
                                assert(paths@[i] == old_paths[i]);
                                assert(old_paths[i]@.len() <= old_paths[head as int]@.len() + 1);
                            }
                        }
                        assert forall|j: int| 0 <= j < paths@.len() implies
                            #[trigger] paths@[j]@.len() <= paths@[head as int]@.len() + 1 by {
                            if j < old_paths.len() {
                                assert(paths@[j] == old_paths[j]);
                            }
                        }
                    }
                } else if dst == cur && !currency_in(&visited, src) {
                    let leg = FxLeg { from: cur, to: src, rate: entry.1, inverted: true };
                    proof {
                        lemma_path_push(m, paths@[head as int]@, base, cur, leg);
                    }
                    let path = extend_path(&paths[head], leg);
                    proof {
                        assert forall|q: Seq<FxLeg<R>>| is_conversion_path(m, q, base, src) implies path@.len() <= q.len() by {
                            if q.len() <= level {
                                assert(visited@.contains(src));
                            }
                        }
                    }
                    if src == quote {
                        proof {
                            if adjacent(m, base, quote) && head > 0 {
                                assert(visited@.contains(quote));
                            }
                        }
                        return Ok(path);
                    }
                    visited.push(src);
                    paths.push(path);
                    proof {
                        assert forall|c: Currency| old_visited.contains(c) implies visited@.contains(c) by {
                            let j = choose|j: int| 0 <= j < old_visited.len() && old_visited[j] == c;
                            assert(visited@[j] == c);
                        }
                        assert(visited@[visited@.len() - 1] == src);
                        assert forall|j: int| 0 <= j < visited@.len() implies is_conversion_path(
                            m,
                            #[trigger] paths@[j]@,
                            base,
                            visited@[j],
                        ) by {
                            if j < old_visited.len() {
                                assert(visited@[j] == old_visited[j]);
                            }
                        }
                        assert forall|j: int, q: Seq<FxLeg<R>>|
                            0 <= j < visited@.len() && #[trigger] is_conversion_path(m, q, base, visited@[j])
                            implies paths@[j]@.len() <= q.len() by {
                            if j < old_visited.len() {
                                assert(visited@[j] == old_visited[j]);
                                assert(paths@[j] == old_paths[j]);
                            }
                        }
                        assert forall|i: int, j: int| 0 <= i <= j < paths@.len() implies
                            #[trigger] paths@[i]@.len() <= #[trigger] paths@[j]@.len() by {
                            if j < old_paths.len() {
                                assert(paths@[i] == old_paths[i]);
                                assert(paths@[j] == old_paths[j]);
                            } else if i < old_paths.len() {
                                assert(paths@[i] == old_paths[i]);
                                assert(old_paths[i]@.len() <= old_paths[head as int]@.len() + 1);
                            }
                        }
                        assert forall|j: int| 0 <= j < paths@.len() implies
                            #[trigger] paths@[j]@.len() <= paths@[head as int]@.len() + 1 by {
                            if j < old_paths.len() {
                                assert(paths@[j] == old_paths[j]);
                            }
                        }
                    }
                }
                k = k + 1;
            }
            proof {
                assert forall|j: int, c: Currency|
                    #![trigger visited@[j], adjacent(m, visited@[j], c)]
                    0 <= j < head + 1 && adjacent(m, visited@[j], c) implies visited@.contains(c) by {
                    if j == head {
                        if m.contains_key((cur, c)) {
                            let e = choose|e: int| 0 <= e < n && self.exchange_rate_map@[e].0 == (cur, c);
                            assert(self.exchange_rate_map@[e].0.0 == cur);
                        } else {
                            let e = choose|e: int| 0 <= e < n && self.exchange_rate_map@[e].0 == (c, cur);
                            assert(self.exchange_rate_map@[e].0.1 == cur);
                        }
                    }
                }
                if head + 1 < visited@.len() {
                    let next = paths@[head + 1]@.len() as int;
                    assert(level <= next <= level + 1);
                    assert forall|c: Currency, q: Seq<FxLeg<R>>|
                        #[trigger] is_conversion_path(m, q, base, c) && q.len() <= next implies visited@.contains(c) by {
                        if q.len() > level {
                            lemma_path_drop_last(m, q, base, c);
                            let mid = q.last().from;
                            assert(is_conversion_path(m, q.drop_last(), base, mid));
                            assert(visited@.contains(mid));
                            let j = choose|j: int| 0 <= j < visited@.len() && visited@[j] == mid;
                            assert(is_conversion_path(m, q.drop_last(), base, visited@[j]));
                            assert(paths@[j]@.len() <= level);
                            if j > head {
                                assert(paths@[head + 1]@.len() <= paths@[j]@.len());
                            }
                            assert(adjacent(m, visited@[j], c));
                        }
                    }
                    assert forall|j: int| 0 <= j < paths@.len() implies
                        #[trigger] paths@[j]@.len() <= paths@[head + 1]@.len() + 1 by {
                    }
                }
            }
            head = head + 1;
        }
        proof {
            let v = visited@.to_set();
            assert forall|a: Currency, b: Currency|
                #![trigger adjacent(m, a, b)]
                v.contains(a) && adjacent(m, a, b) implies v.contains(b) by {
                let j = choose|j: int| 0 <= j < visited@.len() && visited@[j] == a;
                assert(visited@.contains(b));
            }
            assert(v.contains(base)) by {
                assert(visited@[0] == base);
            }
            if adjacent(m, base, quote) {
                assert(visited@.contains(quote));
            }
            if connected(m, base, quote) {
                let legs = choose|legs: Seq<FxLeg<R>>| is_conversion_path(m, legs, base, quote);
                lemma_closed_set_contains_path_end(m, v, legs, base, quote);
            }
        }
        Err(QSError::NoExchangeRatePath(base, quote))
    }
}

/// A rate read right after it was written is the written rate: once
/// `add_fx_rate(base, quote, rate)` has stored `rate`, `get_fx_rate(base, quote)`
/// converts with the single direct leg of that rate.
pub proof fn lemma_written_rate_is_read<R>(
    m: Map<(Currency, Currency), R>,
    base: Currency,
    quote: Currency,
    rate: R,
)
    ensures
        m.insert((base, quote), rate).contains_key((base, quote)),
        direct_leg(m.insert((base, quote), rate), base, quote) == (FxLeg {
            from: base,
            to: quote,
            rate,
            inverted: false,
        }),
{
}

/// A stored rate also converts the other way: when only `(base, quote)` is
/// stored, the one-leg conversion `quote -> base` that `get_fx_rate` returns
/// uses that rate inverted.
pub proof fn lemma_inverse_conversion<R>(
    m: Map<(Currency, Currency), R>,
    legs: Seq<FxLeg<R>>,
    base: Currency,
    quote: Currency,
)
    requires
        m.contains_key((base, quote)),
        !m.contains_key((quote, base)),
        is_conversion_path(m, legs, quote, base),
        legs.len() == 1,
    ensures
        legs[0] == (FxLeg { from: quote, to: base, rate: m[(base, quote)], inverted: true }),
        adjacent(m, quote, base),
{
    assert(is_stored_leg(m, legs[0]));
}

/// Converting a currency into itself uses no rate, and a conversion exists
/// between two currencies exactly when one exists in the other direction.
pub proof fn lemma_connected_symmetric<R>(
    m: Map<(Currency, Currency), R>,
    base: Currency,
    quote: Currency,
)
    ensures
        is_conversion_path(m, Seq::<FxLeg<R>>::empty(), base, base),
        connected(m, base, quote) ==> connected(m, quote, base),
{
    assert(is_conversion_path(m, Seq::<FxLeg<R>>::empty(), base, base));
    if connected(m, base, quote) {
        let legs = choose|legs: Seq<FxLeg<R>>| is_conversion_path(m, legs, base, quote);
        let rev = reversed_path(legs);
        lemma_reversed_path(m, legs, base, quote);
        assert(is_conversion_path(m, rev, quote, base));
    }
}

/// The legs of a path taken backwards, each used in the other direction.
pub open spec fn reversed_path<R>(legs: Seq<FxLeg<R>>) -> Seq<FxLeg<R>> {
    Seq::new(
        legs.len(),
        |i: int|
            FxLeg {
                from: legs[legs.len() - 1 - i].to,
                to: legs[legs.len() - 1 - i].from,
                rate: legs[legs.len() - 1 - i].rate,
                inverted: !legs[legs.len() - 1 - i].inverted,
            },
    )
}

proof fn lemma_reversed_path<R>(
    m: Map<(Currency, Currency), R>,
    legs: Seq<FxLeg<R>>,
    base: Currency,
    quote: Currency,
)
    requires
        is_conversion_path(m, legs, base, quote),
    ensures
        is_conversion_path(m, reversed_path(legs), quote, base),
{
    let rev = reversed_path(legs);
    let n = legs.len() as int;
    assert forall|i: int| 0 <= i < rev.len() - 1 implies #[trigger] rev[i].to == rev[i + 1].from by {
        assert(legs[n - 1 - (i + 1)].to == legs[n - 1 - (i + 1) + 1].from);
    }
    assert forall|i: int| 0 <= i < rev.len() implies is_stored_leg(m, #[trigger] rev[i]) by {
        assert(is_stored_leg(m, legs[n - 1 - i]));
    }
}

} // verus!
