//! Market scenarios: shocks applied to quotes before curve bootstrapping and
//! volatility construction.
//!
//! A [`Scenario`] assigns a shock (absolute or relative, see [`ScenarioType`])
//! to the quotes it targets. The target is either a full quote identifier
//! (e.g. `"OIS_USD_SOFR_1Y"`), shocking that single quote, or a partial,
//! underscore-separated selector whose segments are matched against the
//! segments of every quote identifier (e.g. `"SOFR"` shocks all SOFR quotes).
use vstd::prelude::*;

use crate::errors::QSError;
use crate::quotes::quote::{Quote, QuoteLevels};
use crate::quotes::quotestore::{distinct_ids, quote_id, QuoteStore};
use crate::text::{
    contains_piece,
    eq_ignore_ascii_case,
    eq_ignore_ascii_case_spec,
    split_chars,
    split_spec,
    str_eq,
};

verus! {

/// How a [`Scenario`] shock is applied to a quote value.
#[derive(Clone, Copy, Debug, PartialEq, Eq, Structural)]
pub enum ScenarioType {
    /// The shock is added to the quote value: `v + shock`.
    Absolute,
    /// The shock scales the quote value: `v * (1 + shock)`.
    Relative,
}

impl ScenarioType {
    /// Parses `"Absolute"` or `"Relative"`, ignoring ASCII case.
    pub fn parse(s: &str) -> (r: Result<ScenarioType, QSError>)
        ensures
            r == Ok::<ScenarioType, QSError>(ScenarioType::Absolute) <==> eq_ignore_ascii_case_spec(
                s@,
                "absolute"@,
            ),
            r == Ok::<ScenarioType, QSError>(ScenarioType::Relative) <==> (eq_ignore_ascii_case_spec(
                s@,
                "relative"@,
            ) && !eq_ignore_ascii_case_spec(s@, "absolute"@)),
            r matches Err(e) ==> (e matches QSError::InvalidValue(t) && t@ == s@),
    {
        if eq_ignore_ascii_case(s, "absolute") {
            Ok(ScenarioType::Absolute)
        } else if eq_ignore_ascii_case(s, "relative") {
            Ok(ScenarioType::Relative)
        } else {
            Err(QSError::InvalidValue(s.to_owned()))
        }
    }
}

impl std::str::FromStr for ScenarioType {
    type Err = QSError;

    fn from_str(s: &str) -> (r: Result<ScenarioType, QSError>)
        ensures
            r == Ok::<ScenarioType, QSError>(ScenarioType::Absolute) <==> eq_ignore_ascii_case_spec(
                s@,
                "absolute"@,
            ),
            r == Ok::<ScenarioType, QSError>(ScenarioType::Relative) <==> (eq_ignore_ascii_case_spec(
                s@,
                "relative"@,
            ) && !eq_ignore_ascii_case_spec(s@, "absolute"@)),
            r matches Err(e) ==> (e matches QSError::InvalidValue(t) && t@ == s@),
    {
        ScenarioType::parse(s)
    }
}

/// Every segment of `target` occurs among the segments of `identifier`.
pub open spec fn segments_covered(target: Seq<char>, identifier: Seq<char>) -> bool {
    forall|i: int|
        0 <= i < split_spec(target, '_').len() ==> split_spec(identifier, '_').contains(
            #[trigger] split_spec(target, '_')[i],
        )
}

/// The scenario with target `target` applies to the quote `identifier`.
pub open spec fn scenario_matches(target: Seq<char>, identifier: Seq<char>) -> bool {
    target == identifier || segments_covered(target, identifier)
}

/// A shock applied to one or more quotes; `S` is the type of the shock size.
#[derive(Clone, Debug)]
pub struct Scenario<S> {
    /// Quote identifier or partial (segment) selector.
    target: String,
    /// Shock size (in rate/vol units for absolute, fraction for relative).
    shock: S,
    /// How the shock is applied.
    scenario_type: ScenarioType,
}

impl<S: Copy> Scenario<S> {
    /// The target selector.
    pub closed spec fn spec_target(&self) -> Seq<char> {
        self.target@
    }

    /// The shock size.
    pub closed spec fn spec_shock(&self) -> S {
        self.shock
    }

    /// How the shock is applied.
    pub closed spec fn spec_scenario_type(&self) -> ScenarioType {
        self.scenario_type
    }

    /// Creates a new scenario.
    pub fn new(target: String, shock: S, scenario_type: ScenarioType) -> (r: Self)
        ensures
            r.spec_target() == target@,
            r.spec_shock() == shock,
            r.spec_scenario_type() == scenario_type,
    {
        Self { target, shock, scenario_type }
    }

    /// Returns the target selector.
    pub fn target(&self) -> (r: &str)
        ensures
            r@ == self.spec_target(),
    {
        self.target.as_str()
    }

    /// Returns the shock size.
    pub fn shock(&self) -> (r: S)
        ensures
            r == self.spec_shock(),
    {
        self.shock
    }

    /// Returns the shock application type.
    pub fn scenario_type(&self) -> (r: ScenarioType)
        ensures
            r == self.spec_scenario_type(),
    {
        self.scenario_type
    }

    /// Returns `true` if the scenario targets the given quote identifier:
    /// the identifier is the target itself, or every underscore-separated
    /// segment of the target appears among the segments of the identifier.
    pub fn matches(&self, identifier: &str) -> (r: bool)
        ensures
            r == scenario_matches(self.spec_target(), identifier@),
    {
        if str_eq(self.target.as_str(), identifier) {
            return true;
        }
        let segments = split_chars(identifier, '_');
        let parts = split_chars(self.target.as_str(), '_');
        let ghost ids = split_spec(identifier@, '_');
        let ghost tgt = split_spec(self.target@, '_');
        let mut i: usize = 0;
        while i < parts.len()
            invariant
                ids == split_spec(identifier@, '_'),
                tgt == split_spec(self.target@, '_'),
                self.target@ != identifier@,
                segments@.len() == ids.len(),
                forall|k: int| 0 <= k < segments@.len() ==> #[trigger] segments@[k]@ == ids[k],
                parts@.len() == tgt.len(),
                forall|k: int| 0 <= k < parts@.len() ==> #[trigger] parts@[k]@ == tgt[k],
                i <= parts@.len(),
                forall|k: int| 0 <= k < i ==> ids.contains(#[trigger] tgt[k]),
            decreases parts@.len() - i,
        {
            let found = contains_piece(&segments, &parts[i]);
            if !found {
                proof {
                    if ids.contains(tgt[i as int]) {
                        let k = choose|k: int| 0 <= k < ids.len() && ids[k] == tgt[i as int];
                        assert(segments@[k]@ == parts@[i as int]@);
                    }
                    assert(!ids.contains(tgt[i as int]));
                    assert(!segments_covered(self.target@, identifier@));
                }
                return false;
            }
            proof {
                let k = choose|k: int| 0 <= k < segments@.len() && segments@[k]@ == parts@[i as int]@;
                assert(ids[k] == tgt[i as int]);
            }
            i = i + 1;
        }
        true
    }
}


/// A level after a shock: an absent level stays absent, a value `v` becomes
/// a value that `f` returns for `v`.
pub open spec fn shocked_level<T, F: Fn(T) -> T>(before: Option<T>, after: Option<T>, f: F) -> bool {
    match before {
        None => after is None,
        Some(v) => after matches Some(w) && call_ensures(f, (v,), w),
    }
}

/// Mid, bid and ask after a shock by `f`.
pub open spec fn shocked_levels<T: Copy, F: Fn(T) -> T>(
    before: QuoteLevels<T>,
    after: QuoteLevels<T>,
    f: F,
) -> bool {
    &&& shocked_level(before.spec_levels().0, after.spec_levels().0, f)
    &&& shocked_level(before.spec_levels().1, after.spec_levels().1, f)
    &&& shocked_level(before.spec_levels().2, after.spec_levels().2, f)
}

/// The quote after the scenario with target `target` is applied with the
/// shock function `f`: a targeted quote keeps its details and has its levels
/// shocked, another quote is unchanged.
pub open spec fn shocked_quote<T: Copy, F: Fn(T) -> T>(
    target: Seq<char>,
    before: Quote<T>,
    after: Quote<T>,
    f: F,
) -> bool {
    if scenario_matches(target, quote_id(before)) {
        after.spec_details() == before.spec_details() && shocked_levels(
            before.spec_levels(),
            after.spec_levels(),
            f,
        )
    } else {
        after == before
    }
}

/// Number of quotes that the target matches.
pub open spec fn count_matching<T: Copy>(qs: Seq<Quote<T>>, target: Seq<char>) -> nat
    decreases qs.len(),
{
    if qs.len() == 0 {
        0
    } else {
        count_matching(qs.drop_last(), target) + if scenario_matches(target, quote_id(qs.last())) {
            1nat
        } else {
            0nat
        }
    }
}

impl<S: Copy> Scenario<S> {
    /// Applies the scenario to every quote of the store that it targets:
    /// each available level `v` of such a quote becomes `shocked_value(v)`
    /// (the shocked value of this scenario's shock). Returns the number of
    /// shocked quotes.
    ///
    /// ## Errors
    /// `NoMatchingQuote` with the target when it matches no quote of the
    /// store, which is then left unchanged.
    pub fn apply<T: Copy, F: Fn(T) -> T>(&self, store: &mut QuoteStore<T>, shocked_value: F) -> (r:
        Result<usize, QSError>)
        requires
            forall|v: T| call_requires(shocked_value, (v,)),
        ensures
            final(store).spec_reference_date() == old(store).spec_reference_date(),
            final(store).spec_quotes().len() == old(store).spec_quotes().len(),
            r is Err <==> count_matching(old(store).spec_quotes(), self.spec_target()) == 0,
            r matches Err(e) ==> (e matches QSError::NoMatchingQuote(t) && t@ == self.spec_target())
                && final(store).spec_quotes() == old(store).spec_quotes(),
            r matches Ok(n) ==> n == count_matching(old(store).spec_quotes(), self.spec_target())
                && forall|i: int|
                0 <= i < old(store).spec_quotes().len() ==> shocked_quote(
                    self.spec_target(),
                    #[trigger] old(store).spec_quotes()[i],
                    final(store).spec_quotes()[i],
                    shocked_value,
                ),
    {
        let ghost before = store.spec_quotes();
        let n = store.quotes().len();
        let mut count: usize = 0;
        let mut i: usize = 0;
        while i < n
            invariant
                n == before.len(),
                before == store.spec_quotes(),
                i <= n,
                count <= i,
                count == count_matching(before.take(i as int), self.spec_target()),
            decreases n - i,
        {
            let id = store.quotes()[i].details().identifier();
            proof {
                assert(before.take(i as int + 1).drop_last() =~= before.take(i as int));
            }
            if self.matches(id.as_str()) {
                count = count + 1;
            }
            i = i + 1;
        }
        proof {
            assert(before.take(n as int) =~= before);
        }
        if count == 0 {
            return Err(QSError::NoMatchingQuote(self.target.clone()));
        }
        let mut i: usize = 0;
        while i < n
            invariant
                n == before.len(),
                i <= n,
                store.spec_quotes().len() == n,
                store.spec_reference_date() == old(store).spec_reference_date(),
                before == old(store).spec_quotes(),
                forall|v: T| call_requires(shocked_value, (v,)),
                forall|k: int|
                    0 <= k < i ==> shocked_quote(
                        self.spec_target(),
                        #[trigger] before[k],
                        store.spec_quotes()[k],
                        shocked_value,
                    ),
                forall|k: int| i <= k < n ==> #[trigger] store.spec_quotes()[k] == before[k],
            decreases n - i,
        {
            let qs = store.quotes();
            let q = &qs[i];
            let id = q.details().identifier();
            if self.matches(id.as_str()) {
                let levels = q.levels();
                let mid = match levels.mid() {
                    Some(v) => Some(shocked_value(v)),
                    None => None,
                };
                let bid = match levels.bid() {
                    Some(v) => Some(shocked_value(v)),
                    None => None,
                };
                let ask = match levels.ask() {
                    Some(v) => Some(shocked_value(v)),
                    None => None,
                };
                let shocked = Quote::new(q.details().duplicate(), QuoteLevels::new(mid, bid, ask));
                let ghost cur = store.spec_quotes();
                proof {
                    assert(distinct_ids(cur));
                    assert(quote_id(shocked) == quote_id(cur[i as int]));
                }
                store.add_quote(shocked);
                proof {
                    let j = choose|j: int|
                        0 <= j < cur.len() && quote_id(#[trigger] cur[j]) == quote_id(shocked)
                            && store.spec_quotes() == cur.update(j, shocked);
                    if j != i {
                        assert(quote_id(cur[j]) == quote_id(cur[i as int]));
                    }
                    assert(store.spec_quotes() == cur.update(i as int, shocked));
                }
            }
            i = i + 1;
        }
        Ok(count)
    }
}

/// A scenario targets the quote whose identifier is its target, and a quote
/// whose identifier contains all of the target's segments.
pub proof fn lemma_target_matches_itself(target: Seq<char>, identifier: Seq<char>)
    ensures
        scenario_matches(target, target),
        segments_covered(target, identifier) ==> scenario_matches(target, identifier),
{
}

/// A scenario whose target is not the identifier itself applies to it only if
/// each segment of the target, at every position, is one of the identifier's
/// segments: one missing segment is enough to leave the quote untouched.
pub proof fn lemma_missing_segment_excludes(target: Seq<char>, identifier: Seq<char>, i: int)
    requires
        target != identifier,
        0 <= i < split_spec(target, '_').len(),
        !split_spec(identifier, '_').contains(split_spec(target, '_')[i]),
    ensures
        !scenario_matches(target, identifier),
{
}

/// A scenario applies to an identifier other than its target exactly when
/// every segment of the target occurs among the identifier's segments.
pub proof fn lemma_matches_iff_all_segments(target: Seq<char>, identifier: Seq<char>)
    requires
        target != identifier,
    ensures
        scenario_matches(target, identifier) <==> forall|i: int|
            0 <= i < split_spec(target, '_').len() ==> split_spec(identifier, '_').contains(
                #[trigger] split_spec(target, '_')[i],
            ),
{
}

} // verus!
