//! Credit curve bootstrapping: the CDS par-spread quotes of each configured
//! credit curve are resolved into pillars (maturity, spread, quote
//! identifier) sorted by maturity, ready for the hazard-rate strip.
use vstd::prelude::*;

use crate::errors::QSError;
use crate::indices::{index_key, MarketIndex};
use crate::pricing::marketdata::keys_view;
use crate::quotes::quote::{Level, QuoteSelector};
use crate::rates::bootstrapping::creditcurveconfiguration::CreditCurveConfiguration;
use crate::rates::bootstrapping::curveconfiguration::ids_view;
use crate::rates::bootstrapping::multicurvebootstrapper::selected_value;
use crate::time::{advance_ymd, can_advance_ymd, serial_of, Date, Period};

verus! {

/// The tenor of the quote that the selector gives for `id`.
pub open spec fn selected_tenor<T: Copy, S: QuoteSelector<T>>(sel: &S, id: Seq<char>) -> Option<Period> {
    match sel.spec_select(id) {
        Some(q) => q.spec_details()@.tenor,
        None => None,
    }
}

/// CDS quote `id` resolves: the selector has it, it has a tenor and a value at
/// `level`, and its maturity (`reference` moved by the tenor) is a date.
pub open spec fn cds_quote_resolves<T: Copy, S: QuoteSelector<T>>(
    sel: &S,
    id: Seq<char>,
    level: Level,
    reference: Date,
) -> bool {
    &&& sel.spec_select(id) is Some
    &&& selected_tenor(sel, id) is Some
    &&& selected_value(sel, id, level) is Some
    &&& can_advance_ymd(reference@, selected_tenor(sel, id)->0)
}

/// The error reported for CDS quote `id` when it does not resolve.
pub open spec fn cds_quote_error<T: Copy, S: QuoteSelector<T>>(
    sel: &S,
    id: Seq<char>,
    level: Level,
    e: QSError,
) -> bool {
    if sel.spec_select(id) is None {
        e matches QSError::QuoteNotFound(s) && s@ == id
    } else if selected_tenor(sel, id) is None {
        e matches QSError::InvalidValue(s) && s@ == id
    } else if selected_value(sel, id, level) is None {
        e == QSError::LevelNotAvailable
    } else {
        e == QSError::DateOutOfRange
    }
}

/// The pillar of a resolved CDS quote: (maturity, spread, identifier).
pub open spec fn cds_pillar<T: Copy, S: QuoteSelector<T>>(
    sel: &S,
    id: Seq<char>,
    level: Level,
    reference: Date,
) -> ((int, int, int), T, Seq<char>) {
    (advance_ymd(reference@, selected_tenor(sel, id)->0), selected_value(sel, id, level)->0, id)
}

/// A pillar as plain values: (maturity, spread, identifier).
pub open spec fn pillar_view<T>(p: (Date, T, String)) -> ((int, int, int), T, Seq<char>) {
    (p.0@, p.1, p.2@)
}

/// The views of a list of pillars.
pub open spec fn pillars_view<T>(v: Seq<(Date, T, String)>) -> Seq<((int, int, int), T, Seq<char>)> {
    v.map_values(|p: (Date, T, String)| pillar_view(p))
}

/// The serial day number of a maturity.
pub open spec fn maturity_serial(t: (int, int, int)) -> int {
    serial_of(t.0, t.1, t.2)
}

/// Maturities strictly increase along the list.
pub open spec fn strictly_sorted<T>(s: Seq<((int, int, int), T, Seq<char>)>) -> bool {
    forall|i: int, j: int|
        0 <= i < j < s.len() ==> maturity_serial(#[trigger] s[i].0) < maturity_serial(#[trigger] s[j].0)
}

/// Two pillars of the list mature on the same day.
pub open spec fn has_duplicate_maturity<T>(s: Seq<((int, int, int), T, Seq<char>)>) -> bool {
    exists|i: int, j: int|
        0 <= i < s.len() && 0 <= j < s.len() && i != j && maturity_serial(#[trigger] s[i].0)
            == maturity_serial(#[trigger] s[j].0)
}

/// `a` and `b` hold the same pillars.
pub open spec fn same_pillars<T>(a: Seq<((int, int, int), T, Seq<char>)>, b: Seq<((int, int, int), T, Seq<char>)>) -> bool {
    &&& a.len() == b.len()
    &&& forall|i: int| 0 <= i < a.len() ==> b.contains(#[trigger] a[i])
    &&& forall|j: int| 0 <= j < b.len() ==> a.contains(#[trigger] b[j])
}

/// Sorts pillars by maturity; `None` when two of them mature on the same day.
fn sort_pillars<T: Copy>(v: Vec<(Date, T, String)>) -> (r: Option<Vec<(Date, T, String)>>)
    ensures
        r is None <==> has_duplicate_maturity(pillars_view(v@)),
        r matches Some(s) ==> strictly_sorted(pillars_view(s@)) && same_pillars(
            pillars_view(s@),
            pillars_view(v@),
        ),
{
    let ghost all = pillars_view(v@);
    let mut rest = v;
    let mut out: Vec<(Date, T, String)> = Vec::new();
    while rest.len() > 0
        invariant
            all == pillars_view(v@),
            all.len() == rest@.len() + out@.len(),
            pillars_view(rest@) == all.take(rest@.len() as int),
            strictly_sorted(pillars_view(out@)),
            forall|i: int| 0 <= i < out@.len() ==> all.skip(rest@.len() as int).contains(
                #[trigger] pillars_view(out@)[i],
            ),
            forall|j: int| rest@.len() <= j < all.len() ==> pillars_view(out@).contains(#[trigger] all[j]),
            !has_duplicate_maturity(all.skip(rest@.len() as int)),
        decreases rest@.len(),
    {
        let ghost n = rest@.len() as int;
        let ghost old_rest = rest@;
        let x = rest.pop().unwrap();
        proof {
            assert(old_rest =~= rest@.push(x));
            assert(pillars_view(old_rest)[n - 1] == pillar_view(x));
            assert(all.take(n)[n - 1] == all[n - 1]);
            assert(pillars_view(rest@) =~= all.take(n - 1)) by {
                assert forall|i: int| 0 <= i < n - 1 implies pillars_view(rest@)[i] == all.take(n - 1)[i] by {
                    assert(pillars_view(old_rest)[i] == all.take(n)[i]);
                    assert(old_rest[i] == rest@[i]);
                }
            }
            assert(all[n - 1] == pillar_view(x));
        }
        let key = x.0.serial_number();
        let mut p: usize = 0;
        while p < out.len() && out[p].0.serial_number() < key
            invariant
                p <= out@.len(),
                key == x.0.serial(),
                forall|i: int| 0 <= i < p ==> out@[i].0.serial() < key,
            decreases out@.len() - p,
        {
            p = p + 1;
        }
        if p < out.len() && out[p].0.serial_number() == key {
            proof {
                let o = pillars_view(out@)[p as int];
                assert(all.skip(n).contains(o));
                let k = choose|k: int| 0 <= k < all.skip(n).len() && all.skip(n)[k] == o;
                assert(all[n + k] == o);
                assert(maturity_serial(all[n - 1].0) == maturity_serial(all[n + k].0));
                assert(has_duplicate_maturity(all));
            }
            return None;
        }
        let ghost before = pillars_view(out@);
        out.insert(p, x);
        proof {
            let now = pillars_view(out@);
            assert(now =~= before.insert(p as int, pillar_view(x)));
            assert forall|i: int, j: int| 0 <= i < j < now.len() implies maturity_serial(
                #[trigger] now[i].0,
            ) < maturity_serial(#[trigger] now[j].0) by {
                if j < p {
                    assert(now[i] == before[i] && now[j] == before[j]);
                } else if j == p {
                    assert(now[i] == before[i]);
                } else if i < p {
                    assert(now[i] == before[i] && now[j] == before[j - 1]);
                } else if i == p {
                    assert(now[j] == before[j - 1]);
                    if j - 1 > p {
                        assert(maturity_serial(before[p as int].0) < maturity_serial(before[j - 1].0));
                    }
                } else {
                    assert(now[i] == before[i - 1] && now[j] == before[j - 1]);
                }
            }
            let sk = all.skip(n - 1);
            assert(sk[0] == pillar_view(x));
            assert forall|k: int| 0 <= k < all.skip(n).len() implies sk.contains(#[trigger] all.skip(n)[k]) by {
                assert(sk[k + 1] == all.skip(n)[k]);
            }
            assert forall|i: int| 0 <= i < now.len() implies sk.contains(#[trigger] now[i]) by {
                if i == p {
                    assert(sk[0] == now[i]);
                } else {
                    let b = if i < p { i } else { i - 1 };
                    assert(now[i] == before[b]);
                    assert(all.skip(n).contains(before[b]));
                    let k = choose|k: int| 0 <= k < all.skip(n).len() && all.skip(n)[k] == before[b];
                    assert(sk[k + 1] == now[i]);
                }
            }
            assert forall|j: int| n - 1 <= j < all.len() implies now.contains(#[trigger] all[j]) by {
                if j == n - 1 {
                    assert(now[p as int] == all[j]);
                } else {
                    assert(before.contains(all[j]));
                    let b = choose|b: int| 0 <= b < before.len() && before[b] == all[j];
                    if b < p {
                        assert(now[b] == all[j]);
                    } else {
                        assert(now[b + 1] == all[j]);
                    }
                }
            }
            assert(!has_duplicate_maturity(sk)) by {
                if has_duplicate_maturity(sk) {
                    let (a, b) = choose|a: int, b: int|
                        0 <= a < sk.len() && 0 <= b < sk.len() && a != b && maturity_serial(
                            #[trigger] sk[a].0,
                        ) == maturity_serial(#[trigger] sk[b].0);
                    if a > 0 && b > 0 {
                        assert(all.skip(n)[a - 1] == sk[a] && all.skip(n)[b - 1] == sk[b]);
                    } else {
                        let other = if a == 0 { b } else { a };
                        let o = sk[other];
                        assert(o == all.skip(n)[other - 1]);
                        assert(before.contains(o));
                        let q = choose|q: int| 0 <= q < before.len() && before[q] == o;
                        if q < p {
                            assert(maturity_serial(before[q].0) < x.0.serial());
                        } else {
                            assert(maturity_serial(before[p as int].0) != x.0.serial());
                            if q > p {
                                assert(maturity_serial(before[p as int].0) < maturity_serial(before[q].0));
                            }
                            assert(maturity_serial(before[p as int].0) >= x.0.serial());
                        }
                    }
                }
            }
        }
    }
    proof {
        assert(all.skip(0) =~= all);
        let s = pillars_view(out@);
        assert forall|i: int| 0 <= i < s.len() implies all.contains(#[trigger] s[i]) by {
            assert(all.skip(0).contains(s[i]));
        }
        assert(s.len() == all.len());
    }
    Some(out)
}

/// Every identifier resolves.
pub open spec fn all_cds_resolve<T: Copy, S: QuoteSelector<T>>(
    sel: &S,
    ids: Seq<Seq<char>>,
    level: Level,
    reference: Date,
) -> bool {
    forall|j: int| 0 <= j < ids.len() ==> cds_quote_resolves(sel, #[trigger] ids[j], level, reference)
}

/// `e` is the error of the first identifier that does not resolve.
pub open spec fn first_cds_error<T: Copy, S: QuoteSelector<T>>(
    sel: &S,
    ids: Seq<Seq<char>>,
    level: Level,
    reference: Date,
    e: QSError,
) -> bool {
    exists|j: int|
        0 <= j < ids.len() && all_cds_resolve(sel, ids.take(j), level, reference)
            && !cds_quote_resolves(sel, #[trigger] ids[j], level, reference) && cds_quote_error(
            sel,
            ids[j],
            level,
            e,
        )
}

/// The pillars of the identifiers, in identifier order.
pub open spec fn cds_pillars<T: Copy, S: QuoteSelector<T>>(
    sel: &S,
    ids: Seq<Seq<char>>,
    level: Level,
    reference: Date,
) -> Seq<((int, int, int), T, Seq<char>)> {
    Seq::new(ids.len(), |j: int| cds_pillar(sel, ids[j], level, reference))
}

/// Resolves the CDS quotes in order, stopping at the first that does not resolve.
fn resolve_cds_quotes<T: Copy, S: QuoteSelector<T>>(
    sel: &S,
    ids: &Vec<String>,
    level: Level,
    reference: Date,
) -> (r: Result<Vec<(Date, T, String)>, QSError>)
    ensures
        r is Ok <==> all_cds_resolve(sel, ids_view(ids@), level, reference),
        r matches Ok(v) ==> pillars_view(v@) == cds_pillars(sel, ids_view(ids@), level, reference),
        r matches Err(e) ==> first_cds_error(sel, ids_view(ids@), level, reference, e),
{
    let ghost idv = ids_view(ids@);
    let mut out: Vec<(Date, T, String)> = Vec::new();
    let mut j: usize = 0;
    while j < ids.len()
        invariant
            j <= ids@.len(),
            idv == ids_view(ids@),
            all_cds_resolve(sel, idv.take(j as int), level, reference),
            pillars_view(out@) == cds_pillars(sel, idv.take(j as int), level, reference),
        decreases ids@.len() - j,
    {
        let id: &str = ids[j].as_str();
        assert(idv[j as int] == id@);
        let q = match sel.select(id) {
            Some(q) => q,
            None => {
                let e = QSError::QuoteNotFound(ids[j].clone());
                assert(!cds_quote_resolves(sel, idv[j as int], level, reference));
                assert(first_cds_error(sel, idv, level, reference, e));
                return Err(e);
            },
        };
        let tenor = match q.details().tenor() {
            Some(t) => t,
            None => {
                let e = QSError::InvalidValue(ids[j].clone());
                assert(!cds_quote_resolves(sel, idv[j as int], level, reference));
                assert(first_cds_error(sel, idv, level, reference, e));
                return Err(e);
            },
        };
        let spread = match q.levels().value(level) {
            Ok(v) => v,
            Err(e) => {
                assert(!cds_quote_resolves(sel, idv[j as int], level, reference));
                assert(first_cds_error(sel, idv, level, reference, e));
                return Err(e);
            },
        };
        let maturity = match reference.checked_advance(tenor) {
            Some(d) => d,
            None => {
                let e = QSError::DateOutOfRange;
                assert(!cds_quote_resolves(sel, idv[j as int], level, reference));
                assert(first_cds_error(sel, idv, level, reference, e));
                return Err(e);
            },
        };
        let ghost before = out@;
        out.push((maturity, spread, ids[j].clone()));
        proof {
            assert(idv.take(j as int + 1) =~= idv.take(j as int).push(idv[j as int]));
            assert(pillars_view(out@) =~= pillars_view(before).push(pillar_view((maturity, spread, ids@[j as int]))));
            assert(cds_pillars(sel, idv.take(j as int + 1), level, reference) =~= cds_pillars(
                sel,
                idv.take(j as int),
                level,
                reference,
            ).push(cds_pillar(sel, idv[j as int], level, reference)));
        }
        j = j + 1;
    }
    assert(idv.take(j as int) =~= idv);
    Ok(out)
}

/// The pillars of a credit curve, sorted by maturity, with the position of
/// its configuration.
pub struct CreditCurvePillars<T> {
    pub configuration: usize,
    pub market_index: MarketIndex,
    pub pillars: Vec<(Date, T, String)>,
}

/// Configuration `cfg` gives pillars: its discount curve is among the
/// available ones, all its quotes resolve, it has some, and no two mature on
/// the same day.
pub open spec fn credit_curve_ok<T: Copy, S: QuoteSelector<T>, R: Copy>(
    cfg: CreditCurveConfiguration<R>,
    sel: &S,
    level: Level,
    available: Seq<(int, Option<(crate::currencies::Currency, crate::currencies::Currency)>, Seq<char>)>,
) -> bool {
    &&& available.contains(index_key(cfg.spec_terms().2))
    &&& all_cds_resolve(sel, cfg.spec_quotes(), level, sel.spec_reference_date())
    &&& cfg.spec_quotes().len() > 0
    &&& !has_duplicate_maturity(cds_pillars(sel, cfg.spec_quotes(), level, sel.spec_reference_date()))
}

/// The error reported for configuration `cfg`: a missing discount curve, then
/// the first quote that does not resolve, then no quotes, then two pillars
/// with the same maturity.
pub open spec fn credit_curve_error<T: Copy, S: QuoteSelector<T>, R: Copy>(
    cfg: CreditCurveConfiguration<R>,
    sel: &S,
    level: Level,
    available: Seq<(int, Option<(crate::currencies::Currency, crate::currencies::Currency)>, Seq<char>)>,
    e: QSError,
) -> bool {
    if !available.contains(index_key(cfg.spec_terms().2)) {
        e matches QSError::MissingCurve(m) && index_key(m) == index_key(cfg.spec_terms().2)
    } else if !all_cds_resolve(sel, cfg.spec_quotes(), level, sel.spec_reference_date()) {
        first_cds_error(sel, cfg.spec_quotes(), level, sel.spec_reference_date(), e)
    } else if cfg.spec_quotes().len() == 0 {
        e matches QSError::EmptyCurve(m) && index_key(m) == index_key(cfg.spec_terms().0)
    } else {
        e matches QSError::DuplicatePillarMaturity(m) && index_key(m) == index_key(cfg.spec_terms().0)
    }
}

/// `v` holds the pillars of configuration `cfg` sorted by maturity.
pub open spec fn credit_pillars_of<T: Copy, S: QuoteSelector<T>, R: Copy>(
    cfg: CreditCurveConfiguration<R>,
    sel: &S,
    level: Level,
    v: Seq<(Date, T, String)>,
) -> bool {
    strictly_sorted(pillars_view(v)) && same_pillars(
        pillars_view(v),
        cds_pillars(sel, cfg.spec_quotes(), level, sel.spec_reference_date()),
    )
}

/// No later configuration is for the same credit index as configuration `i`.
pub open spec fn is_last_credit_config<R: Copy>(cs: Seq<CreditCurveConfiguration<R>>, i: int) -> bool {
    forall|j: int|
        i < j < cs.len() ==> index_key(#[trigger] cs[j].spec_terms().0) != index_key(cs[i].spec_terms().0)
}

/// Positions below `n` of the configurations kept for their index, in order.
pub open spec fn kept_credit_positions<R: Copy>(cs: Seq<CreditCurveConfiguration<R>>, n: int) -> Seq<int>
    decreases n,
{
    if n <= 0 {
        seq![]
    } else if is_last_credit_config(cs, n - 1) {
        kept_credit_positions(cs, n - 1).push(n - 1)
    } else {
        kept_credit_positions(cs, n - 1)
    }
}

proof fn lemma_kept_credit_prefix<R: Copy>(cs: Seq<CreditCurveConfiguration<R>>, n: int)
    requires
        0 <= n <= cs.len(),
    ensures
        forall|k: int|
            0 <= k < kept_credit_positions(cs, n).len() ==> 0 <= #[trigger] kept_credit_positions(cs, n)[k] < n
                && is_last_credit_config(cs, kept_credit_positions(cs, n)[k]),
        forall|k1: int, k2: int|
            0 <= k1 < k2 < kept_credit_positions(cs, n).len() ==> #[trigger] kept_credit_positions(
                cs,
                n,
            )[k1] < #[trigger] kept_credit_positions(cs, n)[k2],
        forall|p: int|
            0 <= p < n && is_last_credit_config(cs, p) ==> kept_credit_positions(cs, n).contains(p),
    decreases n,
{
    if n > 0 {
        lemma_kept_credit_prefix(cs, n - 1);
        let before = kept_credit_positions(cs, n - 1);
        if is_last_credit_config(cs, n - 1) {
            assert forall|p: int|
                0 <= p < n && is_last_credit_config(cs, p) implies kept_credit_positions(cs, n).contains(p) by {
                if p == n - 1 {
                    assert(before.push(n - 1)[before.len() as int] == p);
                } else {
                    let k = choose|k: int| 0 <= k < before.len() && before[k] == p;
                    assert(before.push(n - 1)[k] == p);
                }
            }
        }
    }
}

proof fn lemma_last_credit_exists<R: Copy>(cs: Seq<CreditCurveConfiguration<R>>, i: int)
    requires
        0 <= i < cs.len(),
    ensures
        exists|j: int|
            i <= j < cs.len() && is_last_credit_config(cs, j) && index_key(
                #[trigger] cs[j].spec_terms().0,
            ) == index_key(cs[i].spec_terms().0),
    decreases cs.len() - i,
{
    if is_last_credit_config(cs, i) {
        assert(index_key(cs[i].spec_terms().0) == index_key(cs[i].spec_terms().0));
    } else {
        let j = choose|j: int|
            i < j < cs.len() && index_key(#[trigger] cs[j].spec_terms().0) == index_key(
                cs[i].spec_terms().0,
            );
        lemma_last_credit_exists(cs, j);
    }
}

/// Each configured credit index gets exactly one curve, from the last
/// configuration given for it.
pub proof fn lemma_one_curve_per_credit_index<R: Copy>(cs: Seq<CreditCurveConfiguration<R>>)
    ensures
        forall|k: int|
            0 <= k < kept_credit_positions(cs, cs.len() as int).len() ==> is_last_credit_config(
                cs,
                #[trigger] kept_credit_positions(cs, cs.len() as int)[k],
            ),
        forall|k1: int, k2: int|
            0 <= k1 < kept_credit_positions(cs, cs.len() as int).len() && 0 <= k2
                < kept_credit_positions(cs, cs.len() as int).len() && k1 != k2 ==> index_key(
                cs[#[trigger] kept_credit_positions(cs, cs.len() as int)[k1]].spec_terms().0,
            ) != index_key(cs[#[trigger] kept_credit_positions(cs, cs.len() as int)[k2]].spec_terms().0),
        forall|i: int|
            0 <= i < cs.len() ==> exists|k: int|
                0 <= k < kept_credit_positions(cs, cs.len() as int).len() && index_key(
                    cs[#[trigger] kept_credit_positions(cs, cs.len() as int)[k]].spec_terms().0,
                ) == index_key(#[trigger] cs[i].spec_terms().0),
{
    let n = cs.len() as int;
    lemma_kept_credit_prefix(cs, n);
    let kept = kept_credit_positions(cs, n);
    assert forall|k1: int, k2: int|
        0 <= k1 < kept.len() && 0 <= k2 < kept.len() && k1 != k2 implies index_key(
            cs[#[trigger] kept[k1]].spec_terms().0,
        ) != index_key(cs[#[trigger] kept[k2]].spec_terms().0) by {
        if k1 < k2 {
            assert(index_key(cs[kept[k2]].spec_terms().0) != index_key(cs[kept[k1]].spec_terms().0));
        } else {
            assert(index_key(cs[kept[k1]].spec_terms().0) != index_key(cs[kept[k2]].spec_terms().0));
        }
    }
    assert forall|i: int| 0 <= i < cs.len() implies exists|k: int|
        0 <= k < kept.len() && index_key(cs[#[trigger] kept[k]].spec_terms().0) == index_key(
            #[trigger] cs[i].spec_terms().0,
        ) by {
        lemma_last_credit_exists(cs, i);
        let j = choose|j: int|
            i <= j < cs.len() && is_last_credit_config(cs, j) && index_key(
                #[trigger] cs[j].spec_terms().0,
            ) == index_key(cs[i].spec_terms().0);
        let k = choose|k: int| 0 <= k < kept.len() && kept[k] == j;
        assert(index_key(cs[kept[k]].spec_terms().0) == index_key(cs[i].spec_terms().0));
    }
}

/// Bootstraps survival curves from CDS par-spread quotes: one configuration
/// per credit curve; `R` is the type of the recovery rates.
pub struct CreditCurveBootstrapper<R> {
    specs: Vec<CreditCurveConfiguration<R>>,
}

impl<R: Copy> CreditCurveBootstrapper<R> {
    /// The curve configurations.
    pub closed spec fn spec_specs(&self) -> Seq<CreditCurveConfiguration<R>> {
        self.specs@
    }

    /// Creates a bootstrapper for the given curve configurations.
    pub fn new(specs: Vec<CreditCurveConfiguration<R>>) -> (r: Self)
        ensures
            r.spec_specs() == specs@,
    {
        Self { specs }
    }

    /// The pillars of one credit curve, sorted by maturity: each CDS quote of
    /// the configuration gives its maturity (the selector's reference date
    /// moved by the quote's tenor), its spread at `level` and its identifier.
    /// `discount_indices` are the discount curves available to the strip.
    pub fn curve_pillars<T: Copy, S: QuoteSelector<T>>(
        spec: &CreditCurveConfiguration<R>,
        selector: &S,
        level: Level,
        discount_indices: &Vec<MarketIndex>,
    ) -> (r: Result<Vec<(Date, T, String)>, QSError>)
        ensures
            r is Ok <==> credit_curve_ok(*spec, selector, level, keys_view(discount_indices@)),
            r matches Ok(v) ==> credit_pillars_of(*spec, selector, level, v@),
            r matches Err(e) ==> credit_curve_error(*spec, selector, level, keys_view(discount_indices@), e),
    {
        let discount = spec.discount_index();
        let mut found = false;
        let mut i: usize = 0;
        while i < discount_indices.len()
            invariant
                i <= discount_indices@.len(),
                found == keys_view(discount_indices@.take(i as int)).contains(index_key(*discount)),
            decreases discount_indices@.len() - i,
        {
            proof {
                assert(keys_view(discount_indices@.take(i as int + 1)) =~= keys_view(
                    discount_indices@.take(i as int),
                ).push(index_key(discount_indices@[i as int])));
            }
            let hit = discount_indices[i].same_as(discount);
            proof {
                let pre = keys_view(discount_indices@.take(i as int));
                let x = index_key(discount_indices@[i as int]);
                let k = index_key(*discount);
                if pre.push(x).contains(k) {
                    let w = choose|w: int| 0 <= w < pre.push(x).len() && pre.push(x)[w] == k;
                    if w < pre.len() {
                        assert(pre[w] == k);
                    }
                }
                if pre.contains(k) {
                    let w = choose|w: int| 0 <= w < pre.len() && pre[w] == k;
                    assert(pre.push(x)[w] == k);
                }
                if x == k {
                    assert(pre.push(x)[pre.len() as int] == k);
                }
            }
            if hit {
                found = true;
            }
            i = i + 1;
        }
        assert(discount_indices@.take(i as int) =~= discount_indices@);
        if !found {
            return Err(QSError::MissingCurve(discount.duplicate()));
        }
        let reference = selector.reference_date();
        let ids = spec.quotes();
        let resolved = resolve_cds_quotes(selector, ids, level, reference)?;
        proof {
            assert(pillars_view(resolved@).len() == resolved@.len());
            assert(ids_view(ids@).len() == ids@.len());
        }
        if resolved.len() == 0 {
            return Err(QSError::EmptyCurve(spec.market_index().duplicate()));
        }
        match sort_pillars(resolved) {
            Some(sorted) => Ok(sorted),
            None => Err(QSError::DuplicatePillarMaturity(spec.market_index().duplicate())),
        }
    }

    /// No later configuration is for the same credit index.
    fn is_last(&self, i: usize) -> (r: bool)
        requires
            i < self.spec_specs().len(),
        ensures
            r == is_last_credit_config(self.spec_specs(), i as int),
    {
        let cs = &self.specs;
        let n = cs.len();
        let mut j: usize = i + 1;
        while j < n
            invariant
                i < j <= n,
                n == cs@.len(),
                cs@ == self.spec_specs(),
                forall|k: int|
                    i < k < j ==> index_key(#[trigger] cs@[k].spec_terms().0) != index_key(
                        cs@[i as int].spec_terms().0,
                    ),
            decreases n - j,
        {
            if cs[j].market_index().same_as(cs[i].market_index()) {
                return false;
            }
            j = j + 1;
        }
        true
    }

    /// The pillars of every configured credit curve, configurations taken in
    /// order; a later configuration of a credit index replaces an earlier one.
    ///
    /// ## Errors
    /// The error of the first configuration that gives no pillars (see
    /// [`CreditCurveBootstrapper::curve_pillars`]).
    pub fn bootstrap<T: Copy, S: QuoteSelector<T>>(
        &self,
        selector: &S,
        level: Level,
        discount_indices: &Vec<MarketIndex>,
    ) -> (r: Result<Vec<CreditCurvePillars<T>>, QSError>)
        ensures
            r is Ok <==> forall|i: int|
                0 <= i < self.spec_specs().len() ==> credit_curve_ok(
                    #[trigger] self.spec_specs()[i],
                    selector,
                    level,
                    keys_view(discount_indices@),
                ),
            r matches Err(e) ==> exists|i: int|
                0 <= i < self.spec_specs().len() && (forall|p: int|
                    0 <= p < i ==> credit_curve_ok(
                        #[trigger] self.spec_specs()[p],
                        selector,
                        level,
                        keys_view(discount_indices@),
                    )) && credit_curve_error(
                    #[trigger] self.spec_specs()[i],
                    selector,
                    level,
                    keys_view(discount_indices@),
                    e,
                ) && !credit_curve_ok(self.spec_specs()[i], selector, level, keys_view(discount_indices@)),
            r matches Ok(curves) ==> {
                let kept = kept_credit_positions(self.spec_specs(), self.spec_specs().len() as int);
                &&& curves@.len() == kept.len()
                &&& forall|k: int|
                    0 <= k < curves@.len() ==> {
                        &&& (#[trigger] curves@[k]).configuration == kept[k]
                        &&& index_key(curves@[k].market_index) == index_key(
                            self.spec_specs()[kept[k]].spec_terms().0,
                        )
                        &&& credit_pillars_of(
                            self.spec_specs()[kept[k]],
                            selector,
                            level,
                            curves@[k].pillars@,
                        )
                    }
            },
    {
        let cs = &self.specs;
        let ghost avail = keys_view(discount_indices@);
        let mut out: Vec<CreditCurvePillars<T>> = Vec::new();
        let mut i: usize = 0;
        while i < cs.len()
            invariant
                i <= cs@.len(),
                cs@ == self.spec_specs(),
                avail == keys_view(discount_indices@),
                forall|p: int| 0 <= p < i ==> credit_curve_ok(#[trigger] cs@[p], selector, level, avail),
                out@.len() == kept_credit_positions(cs@, i as int).len(),
                forall|k: int|
                    0 <= k < out@.len() ==> {
                        &&& (#[trigger] out@[k]).configuration == kept_credit_positions(cs@, i as int)[k]
                        &&& index_key(out@[k].market_index) == index_key(
                            cs@[kept_credit_positions(cs@, i as int)[k]].spec_terms().0,
                        )
                        &&& credit_pillars_of(
                            cs@[kept_credit_positions(cs@, i as int)[k]],
                            selector,
                            level,
                            out@[k].pillars@,
                        )
                    },
            decreases cs@.len() - i,
        {
            let ghost before = out@;
            let pillars = match Self::curve_pillars(&cs[i], selector, level, discount_indices) {
                Ok(v) => v,
                Err(e) => {
                    return Err(e);
                },
            };
            if self.is_last(i) {
                out.push(CreditCurvePillars { configuration: i, market_index: cs[i].market_index().duplicate(), pillars });
                proof {
                    assert(kept_credit_positions(cs@, i as int + 1) == kept_credit_positions(cs@, i as int).push(i as int));
                    assert forall|k: int| 0 <= k < out@.len() implies {
                        &&& (#[trigger] out@[k]).configuration == kept_credit_positions(cs@, i as int + 1)[k]
                        &&& index_key(out@[k].market_index) == index_key(
                            cs@[kept_credit_positions(cs@, i as int + 1)[k]].spec_terms().0,
                        )
                        &&& credit_pillars_of(
                            cs@[kept_credit_positions(cs@, i as int + 1)[k]],
                            selector,
                            level,
                            out@[k].pillars@,
                        )
                    } by {
                        if k < before.len() {
                            assert(out@[k] == before[k]);
                        }
                    }
                }
            } else {
                assert(kept_credit_positions(cs@, i as int + 1) == kept_credit_positions(cs@, i as int));
            }
            i = i + 1;
        }
        Ok(out)
    }
}

} // verus!
