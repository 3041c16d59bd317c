//! Multi-curve bootstrapping: the pillar quotes of every configured curve are
//! resolved through a quote selector, the curves are put in the order of
//! their dependencies, and the FX spot rates that their instruments need are
//! checked in that order.
use vstd::prelude::*;

use crate::currencies::Currency;
use crate::errors::QSError;
use crate::indices::{index_key, MarketIndex};
use crate::math::Interpolator;
use crate::quotes::fxstore::{connected, direct_leg, is_conversion_path, FxLeg, FxStore};
use crate::pricing::marketdata::keys_view;
use crate::quotes::quote::{instrument_needs_fx_spot, Level, QuoteSelector};
use crate::rates::bootstrapping::bootstrapdiscountpolicy::BootstrapDiscountPolicy;
use crate::rates::bootstrapping::curveconfiguration::{ids_view, CurveConfiguration};
use crate::time::DayCounter;

verus! {

/// The value at `level` of the quote that the selector gives for `id`.
pub open spec fn selected_value<T: Copy, S: QuoteSelector<T>>(
    sel: &S,
    id: Seq<char>,
    level: Level,
) -> Option<T> {
    match sel.spec_select(id) {
        Some(q) => q.spec_levels().level_value(level),
        None => None,
    }
}

/// What identifies a market index (see `index_key`).
pub type IndexKey = (int, Option<(Currency, Currency)>, Seq<char>);

/// Quote `id` resolves: the selector has it and it has a value at `level`.
pub open spec fn quote_resolves<T: Copy, S: QuoteSelector<T>>(sel: &S, id: Seq<char>, level: Level) -> bool {
    selected_value(sel, id, level) is Some
}

/// The error reported for quote `id` when it does not resolve.
pub open spec fn quote_error<T: Copy, S: QuoteSelector<T>>(
    sel: &S,
    id: Seq<char>,
    level: Level,
    e: QSError,
) -> bool {
    if sel.spec_select(id) is None {
        e matches QSError::QuoteNotFound(s) && s@ == id
    } else {
        e == QSError::LevelNotAvailable
    }
}

/// All identifiers resolve.
pub open spec fn all_resolve<T: Copy, S: QuoteSelector<T>>(sel: &S, ids: Seq<Seq<char>>, level: Level) -> bool {
    forall|j: int| 0 <= j < ids.len() ==> quote_resolves(sel, #[trigger] ids[j], level)
}

/// `e` is the error of the first identifier that does not resolve.
pub open spec fn first_quote_error<T: Copy, S: QuoteSelector<T>>(
    sel: &S,
    ids: Seq<Seq<char>>,
    level: Level,
    e: QSError,
) -> bool {
    exists|j: int|
        0 <= j < ids.len() && all_resolve(sel, ids.take(j), level) && !quote_resolves(sel, #[trigger] ids[j], level)
            && quote_error(sel, ids[j], level, e)
}

/// Every pillar quote of the configuration resolves.
pub open spec fn config_resolves<T: Copy, S: QuoteSelector<T>>(sel: &S, cfg: CurveConfiguration, level: Level) -> bool {
    all_resolve(sel, cfg.spec_quotes(), level)
}

/// An FX spot rate is available for the curve of `index`: the curve of
/// instruments in `ccy` collateralized in `coll` has one when the stored
/// rates convert `coll` into `ccy`; other curves have none.
pub open spec fn fx_spot_available<R>(rates: Map<(Currency, Currency), R>, index: MarketIndex) -> bool {
    match index {
        MarketIndex::Collateral(ccy, coll) => connected(rates, coll, ccy),
        _ => false,
    }
}

/// No later configuration is for the same index as configuration `i` (a later
/// configuration of an index replaces an earlier one).
pub open spec fn is_last_for_index(cs: Seq<CurveConfiguration>, i: int) -> bool {
    forall|j: int|
        i < j < cs.len() ==> index_key(#[trigger] cs[j].spec_market_index()) != index_key(
            cs[i].spec_market_index(),
        )
}

/// The positions below `n` of the kept configurations (the last one of each
/// index), in configuration order.
pub open spec fn kept_positions(cs: Seq<CurveConfiguration>, n: int) -> Seq<int>
    decreases n,
{
    if n <= 0 {
        seq![]
    } else {
        let p = kept_positions(cs, n - 1);
        if is_last_for_index(cs, n - 1) {
            p.push(n - 1)
        } else {
            p
        }
    }
}

/// The positions of all kept configurations, in configuration order.
pub open spec fn kept(cs: Seq<CurveConfiguration>) -> Seq<int> {
    kept_positions(cs, cs.len() as int)
}

/// The key `k` as a dependency of a curve whose own key is `own`: none when
/// absent or the curve's own.
pub open spec fn key_refs(k: Option<IndexKey>, own: IndexKey) -> Seq<IndexKey> {
    match k {
        Some(x) => if x != own {
            seq![x]
        } else {
            seq![]
        },
        None => seq![],
    }
}

/// The indices (other than `own`) that the quote selected for `id` refers to:
/// its market index, then its second market index.
pub open spec fn quote_refs<T: Copy, S: QuoteSelector<T>>(sel: &S, id: Seq<char>, own: IndexKey) -> Seq<IndexKey> {
    match sel.spec_select(id) {
        Some(q) => key_refs(q.spec_details()@.market_index, own) + key_refs(
            q.spec_details()@.secondary_market_index,
            own,
        ),
        None => seq![],
    }
}

/// The indices that the quotes `ids` refer to, in quote order.
pub open spec fn quotes_refs<T: Copy, S: QuoteSelector<T>>(sel: &S, ids: Seq<Seq<char>>, own: IndexKey) -> Seq<IndexKey>
    decreases ids.len(),
{
    if ids.len() == 0 {
        seq![]
    } else {
        quotes_refs(sel, ids.drop_last(), own) + quote_refs(sel, ids.last(), own)
    }
}

/// The curves that the curve of `cfg` depends on: the discount curve (for
/// any other curve), then the indices that its pillar quotes refer to.
pub open spec fn curve_deps<T: Copy, S: QuoteSelector<T>>(sel: &S, cfg: CurveConfiguration, disc: MarketIndex) -> Seq<IndexKey> {
    let own = index_key(cfg.spec_market_index());
    (if own != index_key(disc) {
        seq![index_key(disc)]
    } else {
        seq![]
    }) + quotes_refs(sel, cfg.spec_quotes(), own)
}

/// Some kept configuration is for the index of key `k`.
pub open spec fn key_configured(cs: Seq<CurveConfiguration>, k: IndexKey) -> bool {
    exists|t: int| 0 <= t < kept(cs).len() && index_key(cs[#[trigger] kept(cs)[t]].spec_market_index()) == k
}

/// Every dependency of the curve of configuration `p` is configured.
pub open spec fn deps_configured<T: Copy, S: QuoteSelector<T>>(
    sel: &S,
    cs: Seq<CurveConfiguration>,
    disc: MarketIndex,
    p: int,
) -> bool {
    forall|j: int|
        0 <= j < curve_deps(sel, cs[p], disc).len() ==> key_configured(cs, #[trigger] curve_deps(sel, cs[p], disc)[j])
}

/// Every dependency of every kept curve is configured.
pub open spec fn all_deps_configured<T: Copy, S: QuoteSelector<T>>(
    sel: &S,
    cs: Seq<CurveConfiguration>,
    disc: MarketIndex,
) -> bool {
    forall|k: int| 0 <= k < kept(cs).len() ==> deps_configured(sel, cs, disc, #[trigger] kept(cs)[k])
}

/// `e` reports the first missing dependency of the first kept curve (in
/// configuration order) that has one.
pub open spec fn missing_curve_error<T: Copy, S: QuoteSelector<T>>(
    sel: &S,
    cs: Seq<CurveConfiguration>,
    disc: MarketIndex,
    e: QSError,
) -> bool {
    exists|k: int, j: int|
        #![trigger kept(cs)[k], curve_deps(sel, cs[kept(cs)[k]], disc)[j]]
        0 <= k < kept(cs).len() && (forall|k2: int| 0 <= k2 < k ==> deps_configured(sel, cs, disc, #[trigger] kept(cs)[k2]))
            && 0 <= j < curve_deps(sel, cs[kept(cs)[k]], disc).len() && (forall|j2: int|
            0 <= j2 < j ==> key_configured(cs, #[trigger] curve_deps(sel, cs[kept(cs)[k]], disc)[j2]))
            && !key_configured(cs, curve_deps(sel, cs[kept(cs)[k]], disc)[j]) && (e matches QSError::MissingCurve(m)
            && index_key(m) == curve_deps(sel, cs[kept(cs)[k]], disc)[j])
}

/// The configuration is for the index of key `k`.
pub open spec fn key_is(cfg: CurveConfiguration, k: IndexKey) -> bool {
    index_key(cfg.spec_market_index()) == k
}

/// The key `k` is the index of one of the kept curves `solved`.
pub open spec fn solved_has(cs: Seq<CurveConfiguration>, solved: Seq<int>, k: IndexKey) -> bool {
    exists|t: int| 0 <= t < solved.len() && #[trigger] key_is(cs[kept(cs)[solved[t]]], k)
}

/// Each of `deps` is the index of one of the kept curves `solved`.
pub open spec fn deps_solved(cs: Seq<CurveConfiguration>, deps: Seq<IndexKey>, solved: Seq<int>) -> bool {
    forall|j: int| 0 <= j < deps.len() ==> solved_has(cs, solved, #[trigger] deps[j])
}

/// The kept curve `k` (an index into `kept(cs)`) can be solved after the
/// kept curves `solved`: it is not one of them, and each of its dependencies
/// is the index of one of them.
pub open spec fn ready<T: Copy, S: QuoteSelector<T>>(
    sel: &S,
    cs: Seq<CurveConfiguration>,
    disc: MarketIndex,
    solved: Seq<int>,
    k: int,
) -> bool {
    &&& !solved.contains(k)
    &&& deps_solved(cs, curve_deps(sel, cs[kept(cs)[k]], disc), solved)
}

/// The first kept curve that can be solved after `solved`, if any.
pub open spec fn next_ready<T: Copy, S: QuoteSelector<T>>(
    sel: &S,
    cs: Seq<CurveConfiguration>,
    disc: MarketIndex,
    solved: Seq<int>,
) -> Option<int> {
    if exists|k: int| 0 <= k < kept(cs).len() && #[trigger] ready(sel, cs, disc, solved, k) {
        Some(
            choose|k: int|
                0 <= k < kept(cs).len() && #[trigger] ready(sel, cs, disc, solved, k) && forall|k2: int|
                    0 <= k2 < k ==> !ready(sel, cs, disc, solved, k2),
        )
    } else {
        None
    }
}

/// The first `steps` curves solved, by repeatedly taking the first kept curve
/// that can be solved; `None` when at some step none can.
pub open spec fn solve_order<T: Copy, S: QuoteSelector<T>>(
    sel: &S,
    cs: Seq<CurveConfiguration>,
    disc: MarketIndex,
    steps: nat,
) -> Option<Seq<int>>
    decreases steps,
{
    if steps == 0 {
        Some(seq![])
    } else {
        match solve_order(sel, cs, disc, (steps - 1) as nat) {
            Some(s) => match next_ready(sel, cs, disc, s) {
                Some(k) => Some(s.push(k)),
                None => None,
            },
            None => None,
        }
    }
}

/// The order in which the kept curves are solved (as indices into
/// `kept(cs)`), or `None` when their dependencies form a cycle.
pub open spec fn bootstrap_order<T: Copy, S: QuoteSelector<T>>(
    sel: &S,
    cs: Seq<CurveConfiguration>,
    disc: MarketIndex,
) -> Option<Seq<int>> {
    solve_order(sel, cs, disc, kept(cs).len())
}

/// The currencies between which the quote selected for `id` needs an FX spot
/// rate when it is priced: the two currencies of an FX forward or of a cross
/// currency swap.
pub open spec fn quote_fx_pair<T: Copy, S: QuoteSelector<T>>(sel: &S, id: Seq<char>) -> Option<(Currency, Currency)> {
    match sel.spec_select(id) {
        Some(q) => {
            let d = q.spec_details()@;
            if instrument_needs_fx_spot(d.instrument) && d.pay_currency is Some && d.receive_currency is Some {
                Some((d.pay_currency->0, d.receive_currency->0))
            } else {
                None
            }
        },
        None => None,
    }
}

/// The FX spot rate that quote `id` needs, if any, is available.
pub open spec fn quote_fx_ok<T: Copy, S: QuoteSelector<T>, R>(
    sel: &S,
    rates: Map<(Currency, Currency), R>,
    id: Seq<char>,
) -> bool {
    quote_fx_pair(sel, id) matches Some(p) ==> connected(rates, p.0, p.1)
}

/// Every pillar quote of the configuration has the FX spot rate it needs.
pub open spec fn config_fx_ok<T: Copy, S: QuoteSelector<T>, R>(
    sel: &S,
    rates: Map<(Currency, Currency), R>,
    cfg: CurveConfiguration,
) -> bool {
    forall|j: int| 0 <= j < cfg.spec_quotes().len() ==> quote_fx_ok(sel, rates, #[trigger] cfg.spec_quotes()[j])
}

/// `e` reports the first quote of `ids` that lacks the FX spot rate it needs.
pub open spec fn first_fx_error<T: Copy, S: QuoteSelector<T>, R>(
    sel: &S,
    rates: Map<(Currency, Currency), R>,
    ids: Seq<Seq<char>>,
    e: QSError,
) -> bool {
    exists|j: int|
        0 <= j < ids.len() && (forall|j2: int| 0 <= j2 < j ==> quote_fx_ok(sel, rates, #[trigger] ids[j2]))
            && !quote_fx_ok(sel, rates, #[trigger] ids[j]) && (e matches QSError::MissingFxSpot(s) && s@ == ids[j])
}

/// Every curve of `order` has the FX spot rates its quotes need.
pub open spec fn order_fx_ok<T: Copy, S: QuoteSelector<T>, R>(
    sel: &S,
    cs: Seq<CurveConfiguration>,
    rates: Map<(Currency, Currency), R>,
    order: Seq<int>,
) -> bool {
    forall|k: int| 0 <= k < order.len() ==> config_fx_ok(sel, rates, cs[kept(cs)[#[trigger] order[k]]])
}

/// Every configuration resolves.
pub open spec fn all_configs_resolve<T: Copy, S: QuoteSelector<T>>(
    sel: &S,
    cs: Seq<CurveConfiguration>,
    level: Level,
) -> bool {
    forall|i: int| 0 <= i < cs.len() ==> config_resolves(sel, #[trigger] cs[i], level)
}

/// The bootstrap of configurations `cs` with discount index `disc`, FX rates
/// `rates`, quotes from `sel` at `level` succeeds.
pub open spec fn bootstrap_succeeds<T: Copy, S: QuoteSelector<T>, R>(
    sel: &S,
    cs: Seq<CurveConfiguration>,
    disc: MarketIndex,
    rates: Map<(Currency, Currency), R>,
    level: Level,
) -> bool {
    &&& all_configs_resolve(sel, cs, level)
    &&& all_deps_configured(sel, cs, disc)
    &&& bootstrap_order(sel, cs, disc) is Some
    &&& order_fx_ok(sel, cs, rates, bootstrap_order(sel, cs, disc)->Some_0)
}

/// `e` is the error of the bootstrap: the first quote that does not resolve
/// (configurations in order); else the first missing curve; else a
/// dependency cycle; else the first quote, curves in solving order, that
/// lacks its FX spot rate.
pub open spec fn bootstrap_error<T: Copy, S: QuoteSelector<T>, R>(
    sel: &S,
    cs: Seq<CurveConfiguration>,
    disc: MarketIndex,
    rates: Map<(Currency, Currency), R>,
    level: Level,
    e: QSError,
) -> bool {
    if !all_configs_resolve(sel, cs, level) {
        exists|i: int|
            0 <= i < cs.len() && (forall|p: int| 0 <= p < i ==> config_resolves(sel, #[trigger] cs[p], level))
                && !config_resolves(sel, #[trigger] cs[i], level) && first_quote_error(sel, cs[i].spec_quotes(), level, e)
    } else if !all_deps_configured(sel, cs, disc) {
        missing_curve_error(sel, cs, disc, e)
    } else if bootstrap_order(sel, cs, disc) is None {
        e == QSError::DependencyCycle
    } else {
        let order = bootstrap_order(sel, cs, disc)->Some_0;
        exists|k: int|
            0 <= k < order.len() && (forall|k2: int|
                0 <= k2 < k ==> config_fx_ok(sel, rates, cs[kept(cs)[#[trigger] order[k2]]]))
                && !config_fx_ok(sel, rates, cs[kept(cs)[#[trigger] order[k]]]) && first_fx_error(
                sel,
                rates,
                cs[kept(cs)[order[k]]].spec_quotes(),
                e,
            )
    }
}

/// A curve ready to be solved: its configuration, the values of its pillar
/// quotes, and for a collateral curve the FX conversion from the collateral
/// currency into the curve currency, when the FX store has one.
pub struct ResolvedCurve<T, R> {
    pub market_index: MarketIndex,
    pub day_counter: DayCounter,
    pub interpolator: Interpolator,
    pub enable_extrapolation: bool,
    pub quote_ids: Vec<String>,
    pub quote_values: Vec<T>,
    pub fx_spot: Option<Vec<FxLeg<R>>>,
}

/// `rc` is configuration `cfg` resolved with the selector at `level` and with
/// the FX rates `rates`: its FX conversion, for a collateral curve, has the
/// fewest legs of all conversions.
pub open spec fn resolves_to<T: Copy, S: QuoteSelector<T>, R>(
    rc: ResolvedCurve<T, R>,
    cfg: CurveConfiguration,
    sel: &S,
    rates: Map<(Currency, Currency), R>,
    level: Level,
) -> bool {
    &&& index_key(rc.market_index) == index_key(cfg.spec_market_index())
    &&& (rc.day_counter, rc.interpolator, rc.enable_extrapolation) == cfg.spec_conventions()
    &&& ids_view(rc.quote_ids@) == cfg.spec_quotes()
    &&& rc.quote_values@.len() == cfg.spec_quotes().len()
    &&& forall|j: int|
        0 <= j < rc.quote_values@.len() ==> selected_value(sel, cfg.spec_quotes()[j], level) == Some(
            #[trigger] rc.quote_values@[j],
        )
    &&& (rc.fx_spot is Some <==> fx_spot_available(rates, cfg.spec_market_index()))
    &&& (rc.fx_spot matches Some(legs) ==> (cfg.spec_market_index() matches MarketIndex::Collateral(
        ccy,
        coll,
    ) && is_conversion_path(rates, legs@, coll, ccy) && (forall|p: Seq<FxLeg<R>>|
        #[trigger] is_conversion_path(rates, p, coll, ccy) ==> legs@.len() <= p.len()) && (coll != ccy
        && rates.contains_key((coll, ccy)) ==> legs@ == seq![direct_leg(rates, coll, ccy)])))
}

/// `curves` is the result of the bootstrap: the kept curves resolved, in
/// solving order.
pub open spec fn bootstrap_result<T: Copy, S: QuoteSelector<T>, R>(
    sel: &S,
    cs: Seq<CurveConfiguration>,
    disc: MarketIndex,
    rates: Map<(Currency, Currency), R>,
    level: Level,
    curves: Seq<ResolvedCurve<T, R>>,
) -> bool {
    let order = bootstrap_order(sel, cs, disc)->Some_0;
    &&& curves.len() == order.len()
    &&& forall|k: int|
        0 <= k < curves.len() ==> resolves_to(#[trigger] curves[k], cs[kept(cs)[order[k]]], sel, rates, level)
}

/// Resolves the quote identifiers in order, stopping at the first that does not resolve.
fn resolve_quotes<T: Copy, S: QuoteSelector<T>>(
    sel: &S,
    ids: &Vec<String>,
    level: Level,
) -> (r: Result<Vec<T>, QSError>)
    ensures
        r is Ok <==> all_resolve(sel, ids_view(ids@), level),
        r matches Ok(v) ==> v@.len() == ids@.len() && forall|j: int|
            0 <= j < v@.len() ==> selected_value(sel, ids@[j]@, level) == Some(#[trigger] v@[j]),
        r matches Err(e) ==> first_quote_error(sel, ids_view(ids@), level, e),
{
    let ghost idv = ids_view(ids@);
    let mut values: Vec<T> = Vec::new();
    let mut j: usize = 0;
    while j < ids.len()
        invariant
            j <= ids@.len(),
            idv == ids_view(ids@),
            values@.len() == j,
            all_resolve(sel, idv.take(j as int), level),
            forall|k: int| 0 <= k < j ==> selected_value(sel, ids@[k]@, level) == Some(#[trigger] values@[k]),
        decreases ids@.len() - j,
    {
        let id: &str = ids[j].as_str();
        assert(idv[j as int] == id@);
        let q = match sel.select(id) {
            Some(q) => q,
            None => {
                let e = QSError::QuoteNotFound(ids[j].clone());
                assert(!quote_resolves(sel, idv[j as int], level));
                assert(first_quote_error(sel, idv, level, e));
                return Err(e);
            },
        };
        let v = match q.levels().value(level) {
            Ok(v) => v,
            Err(e) => {
                assert(!quote_resolves(sel, idv[j as int], level));
                assert(first_quote_error(sel, idv, level, e));
                return Err(e);
            },
        };
        values.push(v);
        assert(idv.take(j as int + 1) =~= idv.take(j as int).push(idv[j as int]));
        j = j + 1;
    }
    assert(idv.take(j as int) =~= idv);
    Ok(values)
}

/// The positions as integers.
pub open spec fn ints(s: Seq<usize>) -> Seq<int> {
    s.map_values(|u: usize| u as int)
}

/// The keys of the indices that an optional index adds as a dependency.
fn push_ref(out: &mut Vec<MarketIndex>, k: Option<&MarketIndex>, own: &MarketIndex)
    ensures
        keys_view(final(out)@) == keys_view(old(out)@) + key_refs(
            match k {
                Some(m) => Some(index_key(*m)),
                None => None,
            },
            index_key(*own),
        ),
{
    match k {
        Some(m) => {
            if !m.same_as(own) {
                let ghost before = out@;
                out.push(m.duplicate());
                assert(keys_view(out@) =~= keys_view(before) + seq![index_key(*m)]);
            } else {
                assert(keys_view(out@) =~= keys_view(out@) + Seq::<IndexKey>::empty());
            }
        },
        None => {
            assert(keys_view(out@) =~= keys_view(out@) + Seq::<IndexKey>::empty());
        },
    }
}

/// The dependencies of the curve of `cfg` (see `curve_deps`).
fn curve_deps_of<T: Copy, S: QuoteSelector<T>>(sel: &S, cfg: &CurveConfiguration, disc: &MarketIndex) -> (r: Vec<MarketIndex>)
    ensures
        keys_view(r@) == curve_deps(sel, *cfg, *disc),
{
    let own = cfg.market_index();
    let ids = cfg.quotes();
    let ghost idv = ids_view(ids@);
    let mut out: Vec<MarketIndex> = Vec::new();
    if !own.same_as(disc) {
        out.push(disc.duplicate());
    }
    let ghost head = keys_view(out@);
    assert(head =~= (if index_key(*own) != index_key(*disc) {
        seq![index_key(*disc)]
    } else {
        Seq::<IndexKey>::empty()
    }));
    let mut j: usize = 0;
    proof {
        assert(idv.take(0) =~= Seq::<Seq<char>>::empty());
        assert(keys_view(out@) =~= head + quotes_refs(sel, idv.take(0), index_key(*own)));
    }
    while j < ids.len()
        invariant
            j <= ids@.len(),
            idv == ids_view(ids@),
            idv == cfg.spec_quotes(),
            *own == cfg.spec_market_index(),
            keys_view(out@) == head + quotes_refs(sel, idv.take(j as int), index_key(*own)),
        decreases ids@.len() - j,
    {
        let ghost before = keys_view(out@);
        assert(idv[j as int] == ids@[j as int]@);
        match sel.select(ids[j].as_str()) {
            Some(q) => {
                push_ref(&mut out, q.details().market_index(), own);
                push_ref(&mut out, q.details().secondary_market_index(), own);
            },
            None => {},
        }
        proof {
            assert(idv.take(j as int + 1).drop_last() =~= idv.take(j as int));
            assert(idv.take(j as int + 1).last() == idv[j as int]);
            assert(keys_view(out@) =~= before + quote_refs(sel, idv[j as int], index_key(*own)));
        }
        j = j + 1;
    }
    assert(idv.take(j as int) =~= idv);
    out
}

/// Once no curve can be solved, no longer order exists.
proof fn lemma_solve_order_stays_none<T: Copy, S: QuoteSelector<T>>(
    sel: &S,
    cs: Seq<CurveConfiguration>,
    disc: MarketIndex,
    a: nat,
    b: nat,
)
    requires
        a <= b,
        solve_order(sel, cs, disc, a) is None,
    ensures
        solve_order(sel, cs, disc, b) is None,
    decreases b - a,
{
    if a < b {
        lemma_solve_order_stays_none(sel, cs, disc, a, (b - 1) as nat);
    }
}

/// The kept positions below `n` lie below `n`, are kept, and increase.
proof fn lemma_kept_positions(cs: Seq<CurveConfiguration>, n: int)
    requires
        0 <= n <= cs.len(),
    ensures
        forall|k: int|
            0 <= k < kept_positions(cs, n).len() ==> 0 <= #[trigger] kept_positions(cs, n)[k] < n
                && is_last_for_index(cs, kept_positions(cs, n)[k]),
    decreases n,
{
    if n > 0 {
        lemma_kept_positions(cs, n - 1);
        let p = kept_positions(cs, n - 1);
        if is_last_for_index(cs, n - 1) {
            assert(kept_positions(cs, n) == p.push(n - 1));
            assert forall|k: int| 0 <= k < p.push(n - 1).len() implies 0 <= #[trigger] p.push(n - 1)[k] < n
                && is_last_for_index(cs, p.push(n - 1)[k]) by {
                if k < p.len() {
                    assert(p.push(n - 1)[k] == p[k]);
                }
            }
        } else {
            assert(kept_positions(cs, n) == p);
        }
    }
}

/// Multi-curve bootstrapping engine: a set of curve configurations, the
/// discount policy that decides which curve discounts the instruments, and the
/// FX spot rates needed by cross currency instruments.
pub struct MultiCurveBootstrapper<R> {
    curve_specs: Vec<CurveConfiguration>,
    discount_policy: BootstrapDiscountPolicy,
    fx_store: FxStore<R>,
}

impl<R: Copy> MultiCurveBootstrapper<R> {
    /// The curve configurations.
    pub closed spec fn spec_curve_specs(&self) -> Seq<CurveConfiguration> {
        self.curve_specs@
    }

    /// The discount policy.
    pub closed spec fn spec_discount_policy(&self) -> BootstrapDiscountPolicy {
        self.discount_policy
    }

    /// The FX spot rates by (base, quote) pair.
    pub closed spec fn spec_fx_rates(&self) -> Map<(Currency, Currency), R> {
        self.fx_store.rates()
    }

    /// Creates a bootstrapper from a set of curve configurations, with no FX
    /// spot rates.
    pub fn new(curve_specs: Vec<CurveConfiguration>, discount_policy: BootstrapDiscountPolicy) -> (r:
        Self)
        ensures
            r.spec_curve_specs() == curve_specs@,
            r.spec_discount_policy() == discount_policy,
            r.spec_fx_rates() == Map::<(Currency, Currency), R>::empty(),
    {
        Self { curve_specs, discount_policy, fx_store: FxStore::new() }
    }

    /// Replaces the FX spot rates, needed by instruments that reference two
    /// currencies (cross currency swaps, FX forwards).
    pub fn with_fx_store(self, store: FxStore<R>) -> (r: Self)
        ensures
            r.spec_curve_specs() == self.spec_curve_specs(),
            r.spec_discount_policy() == self.spec_discount_policy(),
            r.spec_fx_rates() == store.rates(),
    {
        Self { curve_specs: self.curve_specs, discount_policy: self.discount_policy, fx_store: store }
    }

    /// The FX conversion for the curve of `index`: for the curve of
    /// instruments in `ccy` collateralized in `coll`, the conversion of `coll`
    /// into `ccy` with the fewest legs, when the stored rates have one.
    fn fx_spot_for(&self, index: &MarketIndex) -> (r: Option<Vec<FxLeg<R>>>)
        ensures
            r is Some <==> fx_spot_available(self.spec_fx_rates(), *index),
            r matches Some(legs) ==> (*index matches MarketIndex::Collateral(ccy, coll)
                && is_conversion_path(self.spec_fx_rates(), legs@, coll, ccy) && (forall|p: Seq<FxLeg<R>>|
                #[trigger] is_conversion_path(self.spec_fx_rates(), p, coll, ccy) ==> legs@.len() <= p.len())
                && (coll != ccy && self.spec_fx_rates().contains_key((coll, ccy)) ==> legs@ == seq![
                direct_leg(self.spec_fx_rates(), coll, ccy)])),
    {
        match index {
            MarketIndex::Collateral(ccy, coll) => self.fx_store.get_fx_rate(*coll, *ccy).ok(),
            _ => None,
        }
    }

    /// Resolves configuration `cfg`: the values of its pillar quotes and its
    /// FX conversion.
    fn resolve_curve<T: Copy, S: QuoteSelector<T>>(
        &self,
        cfg: &CurveConfiguration,
        selector: &S,
        level: Level,
    ) -> (r: Result<ResolvedCurve<T, R>, QSError>)
        ensures
            r is Ok <==> config_resolves(selector, *cfg, level),
            r matches Ok(rc) ==> resolves_to(rc, *cfg, selector, self.spec_fx_rates(), level),
            r matches Err(e) ==> first_quote_error(selector, cfg.spec_quotes(), level, e),
    {
        let cfg_ids = cfg.quotes();
        let ids = cfg_ids.clone();
        assert(ids_view(ids@) =~= ids_view(cfg_ids@));
        let values = resolve_quotes(selector, &ids, level)?;
        let fx_spot = self.fx_spot_for(cfg.market_index());
        Ok(ResolvedCurve {
            market_index: cfg.market_index().duplicate(),
            day_counter: cfg.day_counter(),
            interpolator: cfg.interpolator(),
            enable_extrapolation: cfg.enable_extrapolation(),
            quote_ids: ids,
            quote_values: values,
            fx_spot,
        })
    }

    /// No configuration after position `i` is for the same index.
    fn is_last(&self, i: usize) -> (r: bool)
        requires
            i < self.spec_curve_specs().len(),
        ensures
            r == is_last_for_index(self.spec_curve_specs(), i as int),
    {
        let cs = &self.curve_specs;
        let n = cs.len();
        let mut j: usize = i + 1;
        while j < cs.len()
            invariant
                i < j <= cs@.len(),
                cs@ == self.spec_curve_specs(),
                forall|k: int|
                    i < k < j ==> index_key(#[trigger] cs@[k].spec_market_index()) != index_key(
                        cs@[i as int].spec_market_index(),
                    ),
            decreases cs@.len() - j,
        {
            if cs[j].market_index().same_as(cs[i].market_index()) {
                return false;
            }
            j = j + 1;
        }
        true
    }

    /// The positions of the kept configurations, in configuration order.
    fn kept_list(&self) -> (r: Vec<usize>)
        ensures
            ints(r@) == kept(self.spec_curve_specs()),
    {
        let ghost cs = self.spec_curve_specs();
        let mut out: Vec<usize> = Vec::new();
        let mut i: usize = 0;
        assert(ints(out@) =~= kept_positions(cs, 0));
        while i < self.curve_specs.len()
            invariant
                i <= cs.len(),
                cs == self.spec_curve_specs(),
                ints(out@) == kept_positions(cs, i as int),
            decreases cs.len() - i,
        {
            if self.is_last(i) {
                let ghost before = out@;
                out.push(i);
                assert(ints(out@) =~= ints(before).push(i as int));
            }
            i = i + 1;
        }
        out
    }

    /// Some kept configuration is for the index of `m`.
    fn is_configured(&self, kept_pos: &Vec<usize>, m: &MarketIndex) -> (r: bool)
        requires
            ints(kept_pos@) == kept(self.spec_curve_specs()),
        ensures
            r == key_configured(self.spec_curve_specs(), index_key(*m)),
    {
        let ghost cs = self.spec_curve_specs();
        proof {
            lemma_kept_positions(cs, cs.len() as int);
        }
        let mut t: usize = 0;
        while t < kept_pos.len()
            invariant
                t <= kept_pos@.len(),
                cs == self.spec_curve_specs(),
                ints(kept_pos@) == kept(cs),
                forall|k: int| 0 <= k < kept(cs).len() ==> 0 <= #[trigger] kept(cs)[k] < cs.len(),
                forall|u: int| 0 <= u < t ==> index_key(cs[#[trigger] kept(cs)[u]].spec_market_index()) != index_key(*m),
            decreases kept_pos@.len() - t,
        {
            let p = kept_pos[t];
            assert(kept(cs)[t as int] == p as int);
            if self.curve_specs[p].market_index().same_as(m) {
                return true;
            }
            t = t + 1;
        }
        false
    }
}

impl<R: Copy> MultiCurveBootstrapper<R> {
    /// Whether kept curve `k` can be solved after the kept curves `solved`
    /// (see `ready`); `deps` are its dependencies.
    fn is_ready<T: Copy, S: QuoteSelector<T>>(
        &self,
        selector: &S,
        kept_pos: &Vec<usize>,
        deps: &Vec<MarketIndex>,
        solved: &Vec<usize>,
        k: usize,
    ) -> (r: bool)
        requires
            ints(kept_pos@) == kept(self.spec_curve_specs()),
            k < kept_pos@.len(),
            keys_view(deps@) == curve_deps(
                selector,
                self.spec_curve_specs()[kept(self.spec_curve_specs())[k as int]],
                self.spec_discount_policy().spec_market_index(),
            ),
            forall|t: int| 0 <= t < solved@.len() ==> #[trigger] solved@[t] < kept_pos@.len(),
        ensures
            r == ready(
                selector,
                self.spec_curve_specs(),
                self.spec_discount_policy().spec_market_index(),
                ints(solved@),
                k as int,
            ),
    {
        let ghost cs = self.spec_curve_specs();
        let ghost disc = self.spec_discount_policy().spec_market_index();
        let ghost sv = ints(solved@);
        let ghost d = curve_deps(selector, cs[kept(cs)[k as int]], disc);
        proof {
            lemma_kept_positions(cs, cs.len() as int);
        }
        let mut t: usize = 0;
        while t < solved.len()
            invariant
                t <= solved@.len(),
                sv == ints(solved@),
                forall|u: int| 0 <= u < t ==> sv[u] != k,
                forall|u: int| 0 <= u < solved@.len() ==> sv[u] == solved@[u] as int,
            decreases solved@.len() - t,
        {
            if solved[t] == k {
                assert(sv[t as int] == k);
                return false;
            }
            t = t + 1;
        }
        assert(!sv.contains(k as int));
        let mut j: usize = 0;
        while j < deps.len()
            invariant
                j <= deps@.len(),
                cs == self.spec_curve_specs(),
                disc == self.spec_discount_policy().spec_market_index(),
                k < kept_pos@.len(),
                d == curve_deps(selector, cs[kept(cs)[k as int]], disc),
                !sv.contains(k as int),
                ints(kept_pos@) == kept(cs),
                sv == ints(solved@),
                keys_view(deps@) == d,
                forall|t2: int| 0 <= t2 < solved@.len() ==> #[trigger] solved@[t2] < kept_pos@.len(),
                forall|k2: int| 0 <= k2 < kept(cs).len() ==> 0 <= #[trigger] kept(cs)[k2] < cs.len(),
                forall|j2: int| 0 <= j2 < j ==> solved_has(cs, sv, #[trigger] d[j2]),
            decreases deps@.len() - j,
        {
            let mut found = false;
            let mut u: usize = 0;
            while u < solved.len()
                invariant
                    u <= solved@.len(),
                    j < deps@.len(),
                    cs == self.spec_curve_specs(),
                    disc == self.spec_discount_policy().spec_market_index(),
                    k < kept_pos@.len(),
                    d == curve_deps(selector, cs[kept(cs)[k as int]], disc),
                    ints(kept_pos@) == kept(cs),
                    sv == ints(solved@),
                    keys_view(deps@) == d,
                    forall|t2: int| 0 <= t2 < solved@.len() ==> #[trigger] solved@[t2] < kept_pos@.len(),
                    forall|k2: int| 0 <= k2 < kept(cs).len() ==> 0 <= #[trigger] kept(cs)[k2] < cs.len(),
                    found ==> solved_has(cs, sv, d[j as int]),
                    !found ==> forall|u2: int| 0 <= u2 < u ==> !key_is(cs[kept(cs)[#[trigger] sv[u2]]], d[j as int]),
                decreases solved@.len() - u,
            {
                let p = kept_pos[solved[u]];
                assert(sv[u as int] == solved@[u as int] as int);
                assert(kept(cs)[sv[u as int]] == p as int);
                assert(d[j as int] == index_key(deps@[j as int]));
                if !found && self.curve_specs[p].market_index().same_as(&deps[j]) {
                    assert(d[j as int] == index_key(deps@[j as int]));
                    assert(key_is(cs[kept(cs)[sv[u as int]]], d[j as int]));
                    found = true;
                }
                u = u + 1;
            }
            if !found {
                proof {
                    assert(d[j as int] == index_key(deps@[j as int]));
                    assert(!solved_has(cs, sv, d[j as int]));
                    assert(!deps_solved(cs, d, sv));
                }
                return false;
            }
            j = j + 1;
        }
        proof {
            let dd = curve_deps(selector, cs[kept(cs)[k as int]], disc);
            assert(dd.len() == deps@.len());
            assert(d == dd);
            assert(deps_solved(cs, dd, sv)) by {
                assert forall|j2: int| 0 <= j2 < dd.len() implies solved_has(cs, sv, #[trigger] dd[j2]) by {
                    assert(d[j2] == dd[j2]);
                }
            }
            assert(ready(selector, cs, disc, sv, k as int));
        }
        true
    }

    /// Whether the FX spot rate that quote `id` needs, if any, is available
    /// (see `quote_fx_ok`).
    fn quote_fx_check<T: Copy, S: QuoteSelector<T>>(&self, selector: &S, id: &str) -> (r: bool)
        ensures
            r == quote_fx_ok(selector, self.spec_fx_rates(), id@),
    {
        match selector.select(id) {
            None => true,
            Some(q) => {
                let d = q.details();
                if d.instrument().needs_fx_spot() {
                    match (d.pay_currency(), d.receive_currency()) {
                        (Some(a), Some(b)) => self.fx_store.get_fx_rate(a, b).is_ok(),
                        _ => true,
                    }
                } else {
                    true
                }
            },
        }
    }

    /// Checks that every configuration resolves, configurations in order.
    fn check_resolution<T: Copy, S: QuoteSelector<T>>(&self, selector: &S, level: Level) -> (r: Result<(), QSError>)
        ensures
            r is Ok <==> all_configs_resolve(selector, self.spec_curve_specs(), level),
            r matches Err(e) ==> exists|i: int|
                0 <= i < self.spec_curve_specs().len() && (forall|p: int|
                    0 <= p < i ==> config_resolves(selector, #[trigger] self.spec_curve_specs()[p], level))
                    && !config_resolves(selector, #[trigger] self.spec_curve_specs()[i], level) && first_quote_error(
                    selector,
                    self.spec_curve_specs()[i].spec_quotes(),
                    level,
                    e,
                ),
    {
        let ghost cs = self.spec_curve_specs();
        let mut i: usize = 0;
        while i < self.curve_specs.len()
            invariant
                i <= cs.len(),
                cs == self.spec_curve_specs(),
                forall|p: int| 0 <= p < i ==> config_resolves(selector, #[trigger] cs[p], level),
            decreases cs.len() - i,
        {
            match self.resolve_curve(&self.curve_specs[i], selector, level) {
                Ok(_) => {},
                Err(e) => {
                    assert(!config_resolves(selector, cs[i as int], level));
                    return Err(e);
                },
            }
            i = i + 1;
        }
        Ok(())
    }

    /// The dependencies of every kept curve, in the order of `kept_pos`; the
    /// first missing one as an error.
    fn collect_deps<T: Copy, S: QuoteSelector<T>>(&self, selector: &S, kept_pos: &Vec<usize>) -> (r: Result<
        Vec<Vec<MarketIndex>>,
        QSError,
    >)
        requires
            ints(kept_pos@) == kept(self.spec_curve_specs()),
        ensures
            r is Ok <==> all_deps_configured(selector, self.spec_curve_specs(), self.spec_discount_policy().spec_market_index()),
            r matches Ok(v) ==> v@.len() == kept_pos@.len() && forall|u: int|
                0 <= u < v@.len() ==> keys_view(#[trigger] v@[u]@) == curve_deps(
                    selector,
                    self.spec_curve_specs()[kept(self.spec_curve_specs())[u]],
                    self.spec_discount_policy().spec_market_index(),
                ),
            r matches Err(e) ==> missing_curve_error(
                selector,
                self.spec_curve_specs(),
                self.spec_discount_policy().spec_market_index(),
                e,
            ),
    {
        let ghost cs = self.spec_curve_specs();
        let ghost disc = self.spec_discount_policy().spec_market_index();
        let disc_ix = self.discount_policy.market_index();
        let nk = kept_pos.len();
        proof {
            lemma_kept_positions(cs, cs.len() as int);
        }
        let mut deps_all: Vec<Vec<MarketIndex>> = Vec::new();
        let mut k: usize = 0;
        while k < nk
            invariant
                k <= nk,
                nk == kept_pos@.len(),
                cs == self.spec_curve_specs(),
                *disc_ix == disc,
                disc == self.spec_discount_policy().spec_market_index(),
                ints(kept_pos@) == kept(cs),
                forall|k2: int| 0 <= k2 < kept(cs).len() ==> 0 <= #[trigger] kept(cs)[k2] < cs.len(),
                deps_all@.len() == k,
                forall|u: int| 0 <= u < k ==> keys_view(#[trigger] deps_all@[u]@) == curve_deps(selector, cs[kept(cs)[u]], disc),
                forall|u: int| 0 <= u < k ==> deps_configured(selector, cs, disc, #[trigger] kept(cs)[u]),
            decreases nk - k,
        {
            let p = kept_pos[k];
            assert(kept(cs)[k as int] == p as int);
            let deps = curve_deps_of(selector, &self.curve_specs[p], disc_ix);
            let mut j: usize = 0;
            while j < deps.len()
                invariant
                    j <= deps@.len(),
                    k < nk,
                    nk == kept_pos@.len(),
                    cs == self.spec_curve_specs(),
                    *disc_ix == disc,
                    disc == self.spec_discount_policy().spec_market_index(),
                    ints(kept_pos@) == kept(cs),
                    kept(cs)[k as int] == p as int,
                    keys_view(deps@) == curve_deps(selector, cs[p as int], disc),
                    forall|u: int| 0 <= u < k ==> deps_configured(selector, cs, disc, #[trigger] kept(cs)[u]),
                    forall|j2: int| 0 <= j2 < j ==> key_configured(cs, #[trigger] curve_deps(selector, cs[p as int], disc)[j2]),
                decreases deps@.len() - j,
            {
                if !self.is_configured(kept_pos, &deps[j]) {
                    let e = QSError::MissingCurve(deps[j].duplicate());
                    proof {
                        let kk = k as int;
                        let jj = j as int;
                        let dd = curve_deps(selector, cs[kept(cs)[kk]], disc);
                        assert(dd[jj] == index_key(deps@[jj]));
                        assert(!key_configured(cs, dd[jj]));
                        assert(forall|j2: int| 0 <= j2 < jj ==> key_configured(cs, #[trigger] dd[j2]));
                        assert(forall|k2: int| 0 <= k2 < kk ==> deps_configured(selector, cs, disc, #[trigger] kept(cs)[k2]));
                        assert(!deps_configured(selector, cs, disc, kept(cs)[kk]));
                        assert(missing_curve_error(selector, cs, disc, e));
                    }
                    return Err(e);
                }
                proof {
                    assert(curve_deps(selector, cs[p as int], disc)[j as int] == index_key(deps@[j as int]));
                }
                j = j + 1;
            }
            deps_all.push(deps);
            proof {
                assert(deps_configured(selector, cs, disc, kept(cs)[k as int]));
            }
            k = k + 1;
        }
        Ok(deps_all)
    }

    /// The first kept curve that can be solved after `solved` (see `next_ready`).
    fn find_ready<T: Copy, S: QuoteSelector<T>>(
        &self,
        selector: &S,
        kept_pos: &Vec<usize>,
        deps_all: &Vec<Vec<MarketIndex>>,
        solved: &Vec<usize>,
    ) -> (r: Option<usize>)
        requires
            ints(kept_pos@) == kept(self.spec_curve_specs()),
            deps_all@.len() == kept_pos@.len(),
            forall|u: int|
                0 <= u < deps_all@.len() ==> keys_view(#[trigger] deps_all@[u]@) == curve_deps(
                    selector,
                    self.spec_curve_specs()[kept(self.spec_curve_specs())[u]],
                    self.spec_discount_policy().spec_market_index(),
                ),
            forall|t: int| 0 <= t < solved@.len() ==> #[trigger] solved@[t] < kept_pos@.len(),
        ensures
            (match r {
                Some(x) => Some(x as int),
                None => None,
            }) == next_ready(selector, self.spec_curve_specs(), self.spec_discount_policy().spec_market_index(), ints(solved@)),
            r matches Some(x) ==> x < kept_pos@.len(),
    {
        let ghost cs = self.spec_curve_specs();
        let ghost disc = self.spec_discount_policy().spec_market_index();
        let ghost sv = ints(solved@);
        let nk = kept_pos.len();
        let mut c: usize = 0;
        while c < nk
            invariant
                c <= nk,
                nk == kept_pos@.len(),
                cs == self.spec_curve_specs(),
                disc == self.spec_discount_policy().spec_market_index(),
                sv == ints(solved@),
                ints(kept_pos@) == kept(cs),
                deps_all@.len() == nk,
                forall|u: int| 0 <= u < nk ==> keys_view(#[trigger] deps_all@[u]@) == curve_deps(selector, cs[kept(cs)[u]], disc),
                forall|t: int| 0 <= t < solved@.len() ==> #[trigger] solved@[t] < nk,
                forall|c2: int| 0 <= c2 < c ==> !ready(selector, cs, disc, sv, c2),
            decreases nk - c,
        {
            if self.is_ready(selector, kept_pos, &deps_all[c], solved, c) {
                proof {
                    let w = choose|k3: int|
                        0 <= k3 < kept(cs).len() && #[trigger] ready(selector, cs, disc, sv, k3) && forall|k2: int|
                            0 <= k2 < k3 ==> !ready(selector, cs, disc, sv, k2);
                    assert(0 <= c < kept(cs).len() && ready(selector, cs, disc, sv, c as int));
                    if w < c {
                    } else if w > c {
                    }
                    assert(w == c);
                }
                return Some(c);
            }
            c = c + 1;
        }
        proof {
            assert(!(exists|k3: int| 0 <= k3 < kept(cs).len() && #[trigger] ready(selector, cs, disc, sv, k3)));
        }
        None
    }

    /// The solving order of the kept curves (indices into `kept_pos`), or
    /// `None` when their dependencies form a cycle.
    fn solve<T: Copy, S: QuoteSelector<T>>(
        &self,
        selector: &S,
        kept_pos: &Vec<usize>,
        deps_all: &Vec<Vec<MarketIndex>>,
    ) -> (r: Option<Vec<usize>>)
        requires
            ints(kept_pos@) == kept(self.spec_curve_specs()),
            deps_all@.len() == kept_pos@.len(),
            forall|u: int|
                0 <= u < deps_all@.len() ==> keys_view(#[trigger] deps_all@[u]@) == curve_deps(
                    selector,
                    self.spec_curve_specs()[kept(self.spec_curve_specs())[u]],
                    self.spec_discount_policy().spec_market_index(),
                ),
        ensures
            (match r {
                Some(v) => Some(ints(v@)),
                None => None,
            }) == bootstrap_order(selector, self.spec_curve_specs(), self.spec_discount_policy().spec_market_index()),
            r matches Some(v) ==> v@.len() == kept_pos@.len() && forall|t: int|
                0 <= t < v@.len() ==> #[trigger] v@[t] < kept_pos@.len(),
    {
        let ghost cs = self.spec_curve_specs();
        let ghost disc = self.spec_discount_policy().spec_market_index();
        let nk = kept_pos.len();
        let mut solved: Vec<usize> = Vec::new();
        let mut s: usize = 0;
        assert(ints(solved@) =~= Seq::<int>::empty());
        while s < nk
            invariant
                s <= nk,
                nk == kept_pos@.len(),
                cs == self.spec_curve_specs(),
                disc == self.spec_discount_policy().spec_market_index(),
                ints(kept_pos@) == kept(cs),
                deps_all@.len() == nk,
                forall|u: int|
                    0 <= u < deps_all@.len() ==> keys_view(#[trigger] deps_all@[u]@) == curve_deps(selector, cs[kept(cs)[u]], disc),
                solved@.len() == s,
                forall|t: int| 0 <= t < solved@.len() ==> #[trigger] solved@[t] < nk,
                solve_order(selector, cs, disc, s as nat) == Some(ints(solved@)),
            decreases nk - s,
        {
            match self.find_ready(selector, kept_pos, deps_all, &solved) {
                None => {
                    proof {
                        assert(solve_order(selector, cs, disc, (s + 1) as nat) is None);
                        lemma_solve_order_stays_none(selector, cs, disc, (s + 1) as nat, nk as nat);
                    }
                    return None;
                },
                Some(x) => {
                    let ghost before = solved@;
                    solved.push(x);
                    assert(ints(solved@) =~= ints(before).push(x as int));
                },
            }
            s = s + 1;
        }
        Some(solved)
    }

    /// Resolves the kept curves in the solving order `solved`, checking that
    /// their quotes have the FX spot rates they need.
    fn resolve_in_order<T: Copy, S: QuoteSelector<T>>(
        &self,
        selector: &S,
        level: Level,
        kept_pos: &Vec<usize>,
        solved: &Vec<usize>,
    ) -> (r: Result<Vec<ResolvedCurve<T, R>>, QSError>)
        requires
            ints(kept_pos@) == kept(self.spec_curve_specs()),
            all_configs_resolve(selector, self.spec_curve_specs(), level),
            forall|t: int| 0 <= t < solved@.len() ==> #[trigger] solved@[t] < kept_pos@.len(),
        ensures
            r is Ok <==> order_fx_ok(selector, self.spec_curve_specs(), self.spec_fx_rates(), ints(solved@)),
            r matches Ok(curves) ==> curves@.len() == solved@.len() && forall|u: int|
                0 <= u < curves@.len() ==> resolves_to(
                    #[trigger] curves@[u],
                    self.spec_curve_specs()[kept(self.spec_curve_specs())[ints(solved@)[u]]],
                    selector,
                    self.spec_fx_rates(),
                    level,
                ),
            r matches Err(e) ==> exists|k: int|
                0 <= k < solved@.len() && (forall|k2: int|
                    0 <= k2 < k ==> config_fx_ok(
                        selector,
                        self.spec_fx_rates(),
                        self.spec_curve_specs()[kept(self.spec_curve_specs())[#[trigger] ints(solved@)[k2]]],
                    )) && !config_fx_ok(
                    selector,
                    self.spec_fx_rates(),
                    self.spec_curve_specs()[kept(self.spec_curve_specs())[#[trigger] ints(solved@)[k]]],
                ) && first_fx_error(
                    selector,
                    self.spec_fx_rates(),
                    self.spec_curve_specs()[kept(self.spec_curve_specs())[ints(solved@)[k]]].spec_quotes(),
                    e,
                ),
    {
        let ghost cs = self.spec_curve_specs();
        let ghost rates = self.spec_fx_rates();
        let ghost order = ints(solved@);
        proof {
            lemma_kept_positions(cs, cs.len() as int);
        }
        let nk = solved.len();
        let mut curves: Vec<ResolvedCurve<T, R>> = Vec::new();
        let mut step: usize = 0;
        while step < nk
            invariant
                step <= nk,
                nk == solved@.len(),
                cs == self.spec_curve_specs(),
                rates == self.spec_fx_rates(),
                ints(kept_pos@) == kept(cs),
                forall|k2: int| 0 <= k2 < kept(cs).len() ==> 0 <= #[trigger] kept(cs)[k2] < cs.len(),
                all_configs_resolve(selector, cs, level),
                forall|t: int| 0 <= t < solved@.len() ==> #[trigger] solved@[t] < kept_pos@.len(),
                order == ints(solved@),
                curves@.len() == step,
                forall|u: int| 0 <= u < step ==> resolves_to(#[trigger] curves@[u], cs[kept(cs)[order[u]]], selector, rates, level),
                forall|u: int| 0 <= u < step ==> config_fx_ok(selector, rates, cs[kept(cs)[#[trigger] order[u]]]),
            decreases nk - step,
        {
            let p = kept_pos[solved[step]];
            assert(order[step as int] == solved@[step as int] as int);
            assert(kept(cs)[order[step as int]] == p as int);
            let cfg = &self.curve_specs[p];
            let rc = match self.resolve_curve(cfg, selector, level) {
                Ok(rc) => rc,
                Err(e) => {
                    assert(config_resolves(selector, cs[p as int], level));
                    return Err(e);
                },
            };
            let ids = cfg.quotes();
            let ghost idv = ids_view(ids@);
            let mut q: usize = 0;
            while q < ids.len()
                invariant
                    q <= ids@.len(),
                    idv == ids_view(ids@),
                    idv == cs[p as int].spec_quotes(),
                    rates == self.spec_fx_rates(),
                    cs == self.spec_curve_specs(),
                    order == ints(solved@),
                    step < nk,
                    nk == solved@.len(),
                    kept(cs)[order[step as int]] == p as int,
                    forall|q2: int| 0 <= q2 < q ==> quote_fx_ok(selector, rates, #[trigger] idv[q2]),
                    forall|u: int| 0 <= u < step ==> config_fx_ok(selector, rates, cs[kept(cs)[#[trigger] order[u]]]),
                decreases ids@.len() - q,
            {
                assert(idv[q as int] == ids@[q as int]@);
                if !self.quote_fx_check(selector, ids[q].as_str()) {
                    let e = QSError::MissingFxSpot(ids[q].clone());
                    proof {
                        assert(!quote_fx_ok(selector, rates, idv[q as int]));
                        assert(!config_fx_ok(selector, rates, cs[kept(cs)[order[step as int]]]));
                        assert(first_fx_error(selector, rates, cs[kept(cs)[order[step as int]]].spec_quotes(), e));
                        assert(order.len() == solved@.len());
                        assert(!order_fx_ok(selector, cs, rates, order));
                    }
                    return Err(e);
                }
                q = q + 1;
            }
            assert(config_fx_ok(selector, rates, cs[kept(cs)[order[step as int]]]));
            curves.push(rc);
            step = step + 1;
        }
        Ok(curves)
    }

    /// Resolves the pillar quotes of every configured curve with `selector`
    /// at `level`, orders the curves by their dependencies and checks, in
    /// that order, that their instruments have the FX spot rates they need.
    /// A later configuration of an index replaces an earlier one. A curve
    /// depends on the discount curve (unless it is the discount curve) and on
    /// the indices that its pillar quotes refer to; at each step the first
    /// configured curve whose dependencies are all solved is solved next.
    ///
    /// ## Errors
    /// The error of the first pillar quote that does not resolve
    /// (configurations in order); else `MissingCurve` with the first
    /// dependency that is not configured; else `DependencyCycle`; else
    /// `MissingFxSpot` with the first quote, curves in solving order, whose
    /// FX spot rate the FX store cannot give.
    pub fn bootstrap<T: Copy, S: QuoteSelector<T>>(&self, selector: &S, level: Level) -> (r: Result<
        Vec<ResolvedCurve<T, R>>,
        QSError,
    >)
        ensures
            r is Ok <==> bootstrap_succeeds(
                selector,
                self.spec_curve_specs(),
                self.spec_discount_policy().spec_market_index(),
                self.spec_fx_rates(),
                level,
            ),
            r matches Ok(curves) ==> bootstrap_result(
                selector,
                self.spec_curve_specs(),
                self.spec_discount_policy().spec_market_index(),
                self.spec_fx_rates(),
                level,
                curves@,
            ),
            r matches Err(e) ==> bootstrap_error(
                selector,
                self.spec_curve_specs(),
                self.spec_discount_policy().spec_market_index(),
                self.spec_fx_rates(),
                level,
                e,
            ),
    {
        let ghost cs = self.spec_curve_specs();
        let ghost disc = self.spec_discount_policy().spec_market_index();
        let ghost rates = self.spec_fx_rates();
        match self.check_resolution(selector, level) {
            Ok(()) => {},
            Err(e) => {
                assert(bootstrap_error(selector, cs, disc, rates, level, e));
                return Err(e);
            },
        }
        let kept_pos = self.kept_list();
        let deps_all = match self.collect_deps(selector, &kept_pos) {
            Ok(v) => v,
            Err(e) => {
                assert(bootstrap_error(selector, cs, disc, rates, level, e));
                return Err(e);
            },
        };
        let solved = match self.solve(selector, &kept_pos, &deps_all) {
            Some(v) => v,
            None => {
                assert(bootstrap_error(selector, cs, disc, rates, level, QSError::DependencyCycle));
                return Err(QSError::DependencyCycle);
            },
        };
        let r = self.resolve_in_order(selector, level, &kept_pos, &solved);
        proof {
            assert(bootstrap_order(selector, cs, disc) == Some(ints(solved@)));
            assert(ints(solved@).len() == solved@.len());
            if r is Err {
                let e = r->Err_0;
                let order = ints(solved@);
                let k = choose|k: int|
                    0 <= k < solved@.len() && (forall|k2: int|
                        0 <= k2 < k ==> config_fx_ok(selector, rates, cs[kept(cs)[#[trigger] order[k2]]]))
                        && !config_fx_ok(selector, rates, cs[kept(cs)[#[trigger] order[k]]]) && first_fx_error(
                        selector,
                        rates,
                        cs[kept(cs)[order[k]]].spec_quotes(),
                        e,
                    );
                assert(all_configs_resolve(selector, cs, level));
                assert(all_deps_configured(selector, cs, disc));
                assert(bootstrap_order(selector, cs, disc)->Some_0 == order);
                assert(0 <= k < order.len());
                assert(!config_fx_ok(selector, rates, cs[kept(cs)[order[k]]]));
                assert(bootstrap_error(selector, cs, disc, rates, level, e));
            }
        }
        r
    }
}

/// The bootstrap depends on the configurations, the discount policy and the
/// FX rates alone: two bootstrappers that agree on them succeed on the same
/// selectors and levels, give the same errors and the same curves. In
/// particular a bootstrapper made by `new` bootstraps as one given an empty
/// FX store, and a second `with_fx_store` replaces the first.
pub proof fn lemma_bootstrap_determined_by_inputs<R: Copy, T: Copy, S: QuoteSelector<T>>(
    a: MultiCurveBootstrapper<R>,
    b: MultiCurveBootstrapper<R>,
    selector: &S,
    level: Level,
)
    requires
        a.spec_curve_specs() == b.spec_curve_specs(),
        a.spec_discount_policy().spec_market_index() == b.spec_discount_policy().spec_market_index(),
        a.spec_fx_rates() == b.spec_fx_rates(),
    ensures
        bootstrap_succeeds(selector, a.spec_curve_specs(), a.spec_discount_policy().spec_market_index(), a.spec_fx_rates(), level)
            == bootstrap_succeeds(selector, b.spec_curve_specs(), b.spec_discount_policy().spec_market_index(), b.spec_fx_rates(), level),
        forall|e: QSError|
            bootstrap_error(selector, a.spec_curve_specs(), a.spec_discount_policy().spec_market_index(), a.spec_fx_rates(), level, e)
                == #[trigger] bootstrap_error(selector, b.spec_curve_specs(), b.spec_discount_policy().spec_market_index(), b.spec_fx_rates(), level, e),
        forall|curves: Seq<ResolvedCurve<T, R>>|
            bootstrap_result(selector, a.spec_curve_specs(), a.spec_discount_policy().spec_market_index(), a.spec_fx_rates(), level, curves)
                == #[trigger] bootstrap_result(selector, b.spec_curve_specs(), b.spec_discount_policy().spec_market_index(), b.spec_fx_rates(), level, curves),
{
}

/// A bootstrapper made by `new` (no FX rates) bootstraps exactly as the same
/// bootstrapper given an empty FX store with `with_fx_store`.
pub proof fn lemma_new_is_empty_fx_store<R: Copy, T: Copy, S: QuoteSelector<T>>(
    a: MultiCurveBootstrapper<R>,
    b: MultiCurveBootstrapper<R>,
    store: FxStore<R>,
    selector: &S,
    level: Level,
)
    requires
        a.spec_fx_rates() == Map::<(Currency, Currency), R>::empty(),
        store.rates() == Map::<(Currency, Currency), R>::empty(),
        b.spec_curve_specs() == a.spec_curve_specs(),
        b.spec_discount_policy() == a.spec_discount_policy(),
        b.spec_fx_rates() == store.rates(),
    ensures
        bootstrap_succeeds(selector, a.spec_curve_specs(), a.spec_discount_policy().spec_market_index(), a.spec_fx_rates(), level)
            == bootstrap_succeeds(selector, b.spec_curve_specs(), b.spec_discount_policy().spec_market_index(), b.spec_fx_rates(), level),
        forall|e: QSError|
            bootstrap_error(selector, a.spec_curve_specs(), a.spec_discount_policy().spec_market_index(), a.spec_fx_rates(), level, e)
                == #[trigger] bootstrap_error(selector, b.spec_curve_specs(), b.spec_discount_policy().spec_market_index(), b.spec_fx_rates(), level, e),
        forall|curves: Seq<ResolvedCurve<T, R>>|
            bootstrap_result(selector, a.spec_curve_specs(), a.spec_discount_policy().spec_market_index(), a.spec_fx_rates(), level, curves)
                == #[trigger] bootstrap_result(selector, b.spec_curve_specs(), b.spec_discount_policy().spec_market_index(), b.spec_fx_rates(), level, curves),
{
    lemma_bootstrap_determined_by_inputs(a, b, selector, level);
}

/// A second FX store replaces the first and nothing else: `b` given `first`
/// and then `second` bootstraps exactly as `b` given only `second`.
pub proof fn lemma_second_fx_store_replaces_first<R: Copy, T: Copy, S: QuoteSelector<T>>(
    b: MultiCurveBootstrapper<R>,
    first: FxStore<R>,
    second: FxStore<R>,
    twice: MultiCurveBootstrapper<R>,
    once: MultiCurveBootstrapper<R>,
    selector: &S,
    level: Level,
)
    requires
        twice.spec_curve_specs() == b.spec_curve_specs(),
        twice.spec_discount_policy() == b.spec_discount_policy(),
        twice.spec_fx_rates() == second.rates(),
        once.spec_curve_specs() == b.spec_curve_specs(),
        once.spec_discount_policy() == b.spec_discount_policy(),
        once.spec_fx_rates() == second.rates(),
    ensures
        bootstrap_succeeds(selector, twice.spec_curve_specs(), twice.spec_discount_policy().spec_market_index(), twice.spec_fx_rates(), level)
            == bootstrap_succeeds(selector, once.spec_curve_specs(), once.spec_discount_policy().spec_market_index(), once.spec_fx_rates(), level),
        forall|e: QSError|
            bootstrap_error(selector, twice.spec_curve_specs(), twice.spec_discount_policy().spec_market_index(), twice.spec_fx_rates(), level, e)
                == #[trigger] bootstrap_error(selector, once.spec_curve_specs(), once.spec_discount_policy().spec_market_index(), once.spec_fx_rates(), level, e),
        forall|curves: Seq<ResolvedCurve<T, R>>|
            bootstrap_result(selector, twice.spec_curve_specs(), twice.spec_discount_policy().spec_market_index(), twice.spec_fx_rates(), level, curves)
                == #[trigger] bootstrap_result(selector, once.spec_curve_specs(), once.spec_discount_policy().spec_market_index(), once.spec_fx_rates(), level, curves),
{
    lemma_bootstrap_determined_by_inputs(twice, once, selector, level);
}

/// An index that the quote selected for `ids[j]` refers to is among the
/// indices that the quotes `ids` refer to.
proof fn lemma_quote_ref_in_quotes_refs<T: Copy, S: QuoteSelector<T>>(
    sel: &S,
    ids: Seq<Seq<char>>,
    own: IndexKey,
    j: int,
    x: IndexKey,
)
    requires
        0 <= j < ids.len(),
        quote_refs(sel, ids[j], own).contains(x),
    ensures
        quotes_refs(sel, ids, own).contains(x),
    decreases ids.len(),
{
    let prev = quotes_refs(sel, ids.drop_last(), own);
    let last = quote_refs(sel, ids.last(), own);
    assert(quotes_refs(sel, ids, own) == prev + last);
    if j < ids.len() - 1 {
        assert(ids.drop_last()[j] == ids[j]);
        lemma_quote_ref_in_quotes_refs(sel, ids.drop_last(), own, j, x);
        let t = choose|t: int| 0 <= t < prev.len() && prev[t] == x;
        assert((prev + last)[t] == x);
    } else {
        let t = choose|t: int| 0 <= t < last.len() && last[t] == x;
        assert((prev + last)[prev.len() + t] == x);
    }
}

/// In the solving order, each curve comes after the curves it needs: the
/// discount curve (unless it is the discount curve itself) and, for each of
/// its pillar quotes, the curve of the quote's market index and the curve of
/// its second market index (each unless it is the curve's own index).
pub proof fn lemma_referenced_indices_solved_first<T: Copy, S: QuoteSelector<T>>(
    sel: &S,
    cs: Seq<CurveConfiguration>,
    disc: MarketIndex,
    a: int,
    j: int,
)
    requires
        bootstrap_order(sel, cs, disc) is Some,
        0 <= a < bootstrap_order(sel, cs, disc)->Some_0.len(),
        0 <= j < cs[kept(cs)[bootstrap_order(sel, cs, disc)->Some_0[a]]].spec_quotes().len(),
    ensures
        ({
            let order = bootstrap_order(sel, cs, disc)->Some_0;
            let cfg = cs[kept(cs)[order[a]]];
            let own = index_key(cfg.spec_market_index());
            &&& own != index_key(disc) ==> solved_has(cs, order.take(a), index_key(disc))
            &&& match sel.spec_select(cfg.spec_quotes()[j]) {
                Some(q) => (match q.spec_details()@.market_index {
                    Some(m) => m != own ==> solved_has(cs, order.take(a), m),
                    None => true,
                }) && (match q.spec_details()@.secondary_market_index {
                    Some(m) => m != own ==> solved_has(cs, order.take(a), m),
                    None => true,
                }),
                None => true,
            }
        }),
{
    let order = bootstrap_order(sel, cs, disc)->Some_0;
    let cfg = cs[kept(cs)[order[a]]];
    let own = index_key(cfg.spec_market_index());
    let id = cfg.spec_quotes()[j];
    lemma_order_respects_dependencies(sel, cs, disc, kept(cs).len());
    let deps = curve_deps(sel, cfg, disc);
    assert(deps_solved(cs, deps, order.take(a)));
    let pre: Seq<IndexKey> = if own != index_key(disc) {
        seq![index_key(disc)]
    } else {
        seq![]
    };
    let qr = quotes_refs(sel, cfg.spec_quotes(), own);
    assert(deps == pre + qr);
    if own != index_key(disc) {
        assert(deps[0] == index_key(disc));
    }
    if let Some(q) = sel.spec_select(id) {
        let r1 = key_refs(q.spec_details()@.market_index, own);
        let r2 = key_refs(q.spec_details()@.secondary_market_index, own);
        assert(quote_refs(sel, id, own) == r1 + r2);
        if let Some(m) = q.spec_details()@.market_index {
            if m != own {
                assert((r1 + r2)[0] == m);
                lemma_quote_ref_in_quotes_refs(sel, cfg.spec_quotes(), own, j, m);
                let t = choose|t: int| 0 <= t < qr.len() && qr[t] == m;
                assert(deps[pre.len() + t] == m);
            }
        }
        if let Some(m) = q.spec_details()@.secondary_market_index {
            if m != own {
                assert((r1 + r2)[r1.len() as int] == m);
                lemma_quote_ref_in_quotes_refs(sel, cfg.spec_quotes(), own, j, m);
                let t = choose|t: int| 0 <= t < qr.len() && qr[t] == m;
                assert(deps[pre.len() + t] == m);
            }
        }
    }
}

/// When some kept curve can be solved after `solved`, the first one can.
proof fn lemma_first_ready<T: Copy, S: QuoteSelector<T>>(
    sel: &S,
    cs: Seq<CurveConfiguration>,
    disc: MarketIndex,
    solved: Seq<int>,
    k0: int,
)
    requires
        0 <= k0 < kept(cs).len(),
        ready(sel, cs, disc, solved, k0),
    ensures
        exists|k: int|
            0 <= k < kept(cs).len() && #[trigger] ready(sel, cs, disc, solved, k) && forall|k2: int|
                0 <= k2 < k ==> !ready(sel, cs, disc, solved, k2),
    decreases k0,
{
    if exists|k2: int| 0 <= k2 < k0 && ready(sel, cs, disc, solved, k2) {
        let k2 = choose|k2: int| 0 <= k2 < k0 && ready(sel, cs, disc, solved, k2);
        lemma_first_ready(sel, cs, disc, solved, k2);
    }
}

/// The curve that `next_ready` gives can be solved after `solved`.
proof fn lemma_next_ready<T: Copy, S: QuoteSelector<T>>(
    sel: &S,
    cs: Seq<CurveConfiguration>,
    disc: MarketIndex,
    solved: Seq<int>,
)
    requires
        next_ready(sel, cs, disc, solved) is Some,
    ensures
        0 <= next_ready(sel, cs, disc, solved)->Some_0 < kept(cs).len(),
        ready(sel, cs, disc, solved, next_ready(sel, cs, disc, solved)->Some_0),
{
    let k0 = choose|k: int| 0 <= k < kept(cs).len() && #[trigger] ready(sel, cs, disc, solved, k);
    lemma_first_ready(sel, cs, disc, solved, k0);
}

/// Each curve of the solving order is solved once, after every curve it
/// depends on.
pub proof fn lemma_order_respects_dependencies<T: Copy, S: QuoteSelector<T>>(
    sel: &S,
    cs: Seq<CurveConfiguration>,
    disc: MarketIndex,
    steps: nat,
)
    requires
        solve_order(sel, cs, disc, steps) is Some,
    ensures
        solve_order(sel, cs, disc, steps)->Some_0.len() == steps,
        forall|a: int, b: int|
            0 <= a < b < solve_order(sel, cs, disc, steps)->Some_0.len() ==> solve_order(sel, cs, disc, steps)->Some_0[a]
                != solve_order(sel, cs, disc, steps)->Some_0[b],
        forall|a: int|
            0 <= a < solve_order(sel, cs, disc, steps)->Some_0.len() ==> 0 <= #[trigger] solve_order(
                sel,
                cs,
                disc,
                steps,
            )->Some_0[a] < kept(cs).len(),
        forall|a: int|
            0 <= a < solve_order(sel, cs, disc, steps)->Some_0.len() ==> deps_solved(
                cs,
                curve_deps(sel, cs[kept(cs)[#[trigger] solve_order(sel, cs, disc, steps)->Some_0[a]]], disc),
                solve_order(sel, cs, disc, steps)->Some_0.take(a),
            ),
    decreases steps,
{
    if steps > 0 {
        let prev = solve_order(sel, cs, disc, (steps - 1) as nat)->Some_0;
        lemma_order_respects_dependencies(sel, cs, disc, (steps - 1) as nat);
        lemma_next_ready(sel, cs, disc, prev);
        let k = next_ready(sel, cs, disc, prev)->Some_0;
        let s = prev.push(k);
        assert(solve_order(sel, cs, disc, steps) == Some(s));
        assert forall|a: int, b: int| 0 <= a < b < s.len() implies s[a] != s[b] by {
            if b == s.len() - 1 {
                assert(prev[a] == s[a]);
                assert(!prev.contains(k));
            } else {
                assert(prev[a] == s[a] && prev[b] == s[b]);
            }
        }
        assert forall|a: int| 0 <= a < s.len() implies 0 <= #[trigger] s[a] < kept(cs).len() by {
            if a < prev.len() {
                assert(s[a] == prev[a]);
            }
        }
        assert forall|a: int|
            0 <= a < s.len() implies deps_solved(cs, curve_deps(sel, cs[kept(cs)[#[trigger] s[a]]], disc), s.take(a)) by {
            if a < prev.len() {
                assert(s[a] == prev[a]);
                assert(s.take(a) =~= prev.take(a));
            } else {
                assert(s[a] == k);
                assert(s.take(a) =~= prev);
            }
        }
    }
}

} // verus!
