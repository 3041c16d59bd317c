//! Quote levels, instrument kinds and the pieces of quote identifiers.
use vstd::prelude::*;
use vstd::string::*;

use crate::currencies::{code_currency, Currency};
pub use crate::quotes::quotedetails::QuoteDetails;
use crate::errors::QSError;
use crate::text::{split_spec, split_str, str_eq, strs_view};

verus! {

/// The currencies of an FX pair text such as `EURUSD`: the first three
/// characters are the code of the base currency, the next three that of the
/// quote currency.
pub open spec fn fx_pair_of_text(s: Seq<char>) -> Option<(Currency, Currency)> {
    if s.len() >= 6 && code_currency(s.subrange(0, 3)) is Some && code_currency(s.subrange(3, 6)) is Some {
        Some((code_currency(s.subrange(0, 3))->0, code_currency(s.subrange(3, 6))->0))
    } else {
        None
    }
}

/// Splits an FX pair text (e.g. `EURUSD`) into its base and quote currencies.
pub fn parse_fx_pair(pair: &str) -> (r: Result<(Currency, Currency), QSError>)
    ensures
        r is Ok <==> fx_pair_of_text(pair@) is Some,
        r matches Ok(p) ==> fx_pair_of_text(pair@) == Some(p),
        r matches Err(e) ==> (e matches QSError::InvalidValue(t) && t@ == pair@),
{
    if pair.unicode_len() < 6 {
        return Err(QSError::InvalidValue(pair.to_owned()));
    }
    let base = match Currency::from_code(pair.substring_char(0, 3)) {
        Ok(c) => c,
        Err(_) => return Err(QSError::InvalidValue(pair.to_owned())),
    };
    let quote_ccy = match Currency::from_code(pair.substring_char(3, 6)) {
        Ok(c) => c,
        Err(_) => return Err(QSError::InvalidValue(pair.to_owned())),
    };
    Ok((base, quote_ccy))
}

/// Quote level.
#[derive(Clone, Copy, Debug, PartialEq, Eq, Structural)]
pub enum Level {
    /// Mid (average between Bid and Ask) price.
    Mid,
    /// Bid (buy) price.
    Bid,
    /// Ask (sell) price.
    Ask,
}

/// Quote levels associated with an instrument identifier.
#[derive(Clone, Copy, Debug)]
pub struct QuoteLevels<T> {
    mid: Option<T>,
    bid: Option<T>,
    ask: Option<T>,
}

impl<T: Copy> QuoteLevels<T> {
    /// The (mid, bid, ask) levels.
    pub closed spec fn spec_levels(&self) -> (Option<T>, Option<T>, Option<T>) {
        (self.mid, self.bid, self.ask)
    }

    /// The level selected by `level`.
    pub open spec fn level_value(&self, level: Level) -> Option<T> {
        match level {
            Level::Mid => self.spec_levels().0,
            Level::Bid => self.spec_levels().1,
            Level::Ask => self.spec_levels().2,
        }
    }

    /// Creates quote levels from optional values.
    pub fn new(mid: Option<T>, bid: Option<T>, ask: Option<T>) -> (r: Self)
        ensures
            r.spec_levels() == (mid, bid, ask),
    {
        Self { mid, bid, ask }
    }

    /// Creates quote levels with only a mid value.
    pub fn with_mid(mid: T) -> (r: Self)
        ensures
            r.spec_levels() == (Some(mid), None::<T>, None::<T>),
    {
        Self { mid: Some(mid), bid: None, ask: None }
    }

    /// Returns the mid quote if available.
    pub fn mid(&self) -> (r: Option<T>)
        ensures
            r == self.spec_levels().0,
    {
        self.mid
    }

    /// Returns the bid quote if available.
    pub fn bid(&self) -> (r: Option<T>)
        ensures
            r == self.spec_levels().1,
    {
        self.bid
    }

    /// Returns the ask quote if available.
    pub fn ask(&self) -> (r: Option<T>)
        ensures
            r == self.spec_levels().2,
    {
        self.ask
    }

    /// The value for the given [`Level`], or an error when that level is not available.
    pub fn value(&self, level: Level) -> (r: Result<T, QSError>)
        ensures
            r is Ok <==> self.level_value(level) is Some,
            r matches Ok(v) ==> self.level_value(level) == Some(v),
            r matches Err(e) ==> e == QSError::LevelNotAvailable,
    {
        let v = match level {
            Level::Mid => self.mid,
            Level::Bid => self.bid,
            Level::Ask => self.ask,
        };
        match v {
            Some(x) => Ok(x),
            None => Err(QSError::LevelNotAvailable),
        }
    }
}

impl<T: Copy> Default for QuoteLevels<T> {
    /// No level available.
    fn default() -> (r: Self)
        ensures
            r.spec_levels() == (None::<T>, None::<T>, None::<T>),
    {
        QuoteLevels { mid: None, bid: None, ask: None }
    }
}

/// The type of instruments that can be handled by the quoting system.
#[derive(Clone, Copy, Debug, PartialEq, Eq, Structural)]
pub enum QuoteInstrument {
    /// Deposit instrument.
    FixedRateDeposit,
    /// Basis swap instrument.
    BasisSwap,
    /// OIS swap instrument.
    OIS,
    /// Equity call option.
    EquityCall,
    /// Equity put option.
    EquityPut,
    /// FX call option.
    FxCall,
    /// FX put option.
    FxPut,
    /// Cross currency swap instrument (fixed vs floating).
    FixFloatCrossCurrencySwap,
    /// Float-float cross currency swap instrument (both legs floating).
    FloatFloatCrossCurrencySwap,
    /// FX forward points.
    FxForwardPoints,
    /// FX outright forward instrument.
    FxOutrightForward,
    /// Future instrument.
    Future,
    /// Convexity adjustment.
    ConvexityAdjustment,
    /// Caplet or floorlet instrument.
    CapletFloorlet,
    /// Swaption instrument.
    EuropeanSwaption,
    /// Cap/Floor (requires stripping).
    CapFloor,
    /// Credit default swap (par-spread quote).
    Cds,
}

/// The instrument named by the first segment of a quote identifier.
pub open spec fn instrument_of_name(s: Seq<char>) -> Option<QuoteInstrument> {
    if s == "OIS"@ {
        Some(QuoteInstrument::OIS)
    } else if s == "FixedRateDeposit"@ {
        Some(QuoteInstrument::FixedRateDeposit)
    } else if s == "BasisSwap"@ {
        Some(QuoteInstrument::BasisSwap)
    } else if s == "FixFloatCrossCurrencySwap"@ {
        Some(QuoteInstrument::FixFloatCrossCurrencySwap)
    } else if s == "CapFloor"@ {
        Some(QuoteInstrument::CapFloor)
    } else if s == "CapletFloorlet"@ {
        Some(QuoteInstrument::CapletFloorlet)
    } else if s == "Future"@ {
        Some(QuoteInstrument::Future)
    } else if s == "ConvexityAdjustment"@ {
        Some(QuoteInstrument::ConvexityAdjustment)
    } else if s == "Swaption"@ {
        Some(QuoteInstrument::EuropeanSwaption)
    } else if s == "FxForwardOutright"@ {
        Some(QuoteInstrument::FxOutrightForward)
    } else if s == "FxOutrightForward"@ {
        Some(QuoteInstrument::FxOutrightForward)
    } else if s == "ForwardOutright"@ {
        Some(QuoteInstrument::FxOutrightForward)
    } else if s == "FloatFloatCrossCurrencySwap"@ {
        Some(QuoteInstrument::FloatFloatCrossCurrencySwap)
    } else if s == "FxForwardPoints"@ {
        Some(QuoteInstrument::FxForwardPoints)
    } else if s == "EquityCall"@ {
        Some(QuoteInstrument::EquityCall)
    } else if s == "EquityPut"@ {
        Some(QuoteInstrument::EquityPut)
    } else if s == "FxCall"@ {
        Some(QuoteInstrument::FxCall)
    } else if s == "FxPut"@ {
        Some(QuoteInstrument::FxPut)
    } else if s == "Cds"@ {
        Some(QuoteInstrument::Cds)
    } else {
        None
    }
}

impl QuoteInstrument {
    /// The instrument named `name` (the first segment of a quote identifier).
    pub fn from_name(name: &str) -> (r: Result<QuoteInstrument, QSError>)
        ensures
            r is Ok <==> instrument_of_name(name@) is Some,
            r matches Ok(i) ==> instrument_of_name(name@) == Some(i),
            r matches Err(e) ==> (e matches QSError::InvalidValue(t) && t@ == name@),
    {
        if str_eq(name, "OIS") {
            Ok(QuoteInstrument::OIS)
        } else if str_eq(name, "FixedRateDeposit") {
            Ok(QuoteInstrument::FixedRateDeposit)
        } else if str_eq(name, "BasisSwap") {
            Ok(QuoteInstrument::BasisSwap)
        } else if str_eq(name, "FixFloatCrossCurrencySwap") {
            Ok(QuoteInstrument::FixFloatCrossCurrencySwap)
        } else if str_eq(name, "CapFloor") {
            Ok(QuoteInstrument::CapFloor)
        } else if str_eq(name, "CapletFloorlet") {
            Ok(QuoteInstrument::CapletFloorlet)
        } else if str_eq(name, "Future") {
            Ok(QuoteInstrument::Future)
        } else if str_eq(name, "ConvexityAdjustment") {
            Ok(QuoteInstrument::ConvexityAdjustment)
        } else if str_eq(name, "Swaption") {
            Ok(QuoteInstrument::EuropeanSwaption)
        } else if str_eq(name, "FxForwardOutright") {
            Ok(QuoteInstrument::FxOutrightForward)
        } else if str_eq(name, "FxOutrightForward") {
            Ok(QuoteInstrument::FxOutrightForward)
        } else if str_eq(name, "ForwardOutright") {
            Ok(QuoteInstrument::FxOutrightForward)
        } else if str_eq(name, "FloatFloatCrossCurrencySwap") {
            Ok(QuoteInstrument::FloatFloatCrossCurrencySwap)
        } else if str_eq(name, "FxForwardPoints") {
            Ok(QuoteInstrument::FxForwardPoints)
        } else if str_eq(name, "EquityCall") {
            Ok(QuoteInstrument::EquityCall)
        } else if str_eq(name, "EquityPut") {
            Ok(QuoteInstrument::EquityPut)
        } else if str_eq(name, "FxCall") {
            Ok(QuoteInstrument::FxCall)
        } else if str_eq(name, "FxPut") {
            Ok(QuoteInstrument::FxPut)
        } else if str_eq(name, "Cds") {
            Ok(QuoteInstrument::Cds)
        } else {
            Err(QSError::InvalidValue(name.to_owned()))
        }
    }

    /// The instrument of a quote identifier: its first underscore-separated
    /// segment names the instrument, and the identifier has at least three
    /// segments.
    pub fn from_identifier(s: &str) -> (r: Result<QuoteInstrument, QSError>)
        ensures
            r is Ok <==> (split_spec(s@, '_').len() >= 3 && instrument_of_name(
                split_spec(s@, '_')[0],
            ) is Some),
            r matches Ok(i) ==> instrument_of_name(split_spec(s@, '_')[0]) == Some(i),
            r matches Err(e) ==> (e matches QSError::InvalidValue(t) && t@ == s@),
    {
        let parts = split_str(s, '_');
        if parts.len() < 3 {
            return Err(QSError::InvalidValue(s.to_owned()));
        }
        proof {
            assert(strs_view(parts@)[0] == parts@[0]@);
        }
        match QuoteInstrument::from_name(parts[0]) {
            Ok(i) => Ok(i),
            Err(_) => Err(QSError::InvalidValue(s.to_owned())),
        }
    }

    /// Whether quotes of this instrument need an FX spot rate to be turned into
    /// instruments (FX forwards and cross currency swaps).
    pub fn needs_fx_spot(&self) -> (r: bool)
        ensures
            r == instrument_needs_fx_spot(*self),
    {
        match self {
            QuoteInstrument::FxForwardPoints => true,
            QuoteInstrument::FxOutrightForward => true,
            QuoteInstrument::FixFloatCrossCurrencySwap => true,
            QuoteInstrument::FloatFloatCrossCurrencySwap => true,
            _ => false,
        }
    }
}

/// Instruments whose quotes are turned into instruments with an FX spot rate.
pub open spec fn instrument_needs_fx_spot(i: QuoteInstrument) -> bool {
    i == QuoteInstrument::FxForwardPoints || i == QuoteInstrument::FxOutrightForward || i
        == QuoteInstrument::FixFloatCrossCurrencySwap || i
        == QuoteInstrument::FloatFloatCrossCurrencySwap
}

/// # `OptionStrategy`
///
/// The strategy for which a volatility is quoted.
#[derive(Clone, Copy, Debug, PartialEq, Eq, Structural)]
pub enum OptionStrategy {
    /// Straddle strategy.
    Straddle,
    /// Strangle strategy.
    Strangle,
    /// Risk reversal strategy.
    RiskReversal,
    /// Butterfly strategy.
    Butterfly,
}

/// The name of an option strategy.
pub open spec fn strategy_name(o: OptionStrategy) -> Seq<char> {
    match o {
        OptionStrategy::Straddle => "Straddle"@,
        OptionStrategy::Strangle => "Strangle"@,
        OptionStrategy::RiskReversal => "RiskReversal"@,
        OptionStrategy::Butterfly => "Butterfly"@,
    }
}

/// The option strategy named `s`.
pub open spec fn strategy_of_name(s: Seq<char>) -> Option<OptionStrategy> {
    if exists|o: OptionStrategy| strategy_name(o) == s {
        Some(choose|o: OptionStrategy| strategy_name(o) == s)
    } else {
        None
    }
}

/// Distinct strategies have distinct names.
pub proof fn lemma_strategy_name_injective(a: OptionStrategy, b: OptionStrategy)
    ensures
        strategy_name(a) == strategy_name(b) ==> a == b,
{
    reveal_strlit("Straddle");
    reveal_strlit("Strangle");
    reveal_strlit("RiskReversal");
    reveal_strlit("Butterfly");
    if strategy_name(a) == strategy_name(b) {
        assert(strategy_name(a).len() == strategy_name(b).len());
        assert(strategy_name(a)[0] == strategy_name(b)[0]);
        assert(strategy_name(a)[4] == strategy_name(b)[4]);
    }
}

impl OptionStrategy {
    /// Parses the name of an option strategy (case sensitive).
    pub fn parse(s: &str) -> (r: Result<OptionStrategy, QSError>)
        ensures
            r is Ok <==> (exists|o: OptionStrategy| strategy_name(o) == s@),
            r matches Ok(o) ==> strategy_name(o) == s@ && strategy_of_name(s@) == Some(o),
            r matches Err(e) ==> (e matches QSError::InvalidValue(t) && t@ == s@),
    {
        proof {
            assert forall|a: OptionStrategy, b: OptionStrategy|
                strategy_name(a) == s@ && strategy_name(b) == s@ implies a == b by {
                lemma_strategy_name_injective(a, b);
            }
        }
        if str_eq(s, "Straddle") {
            assert(strategy_name(OptionStrategy::Straddle) == s@);
            Ok(OptionStrategy::Straddle)
        } else if str_eq(s, "Strangle") {
            assert(strategy_name(OptionStrategy::Strangle) == s@);
            Ok(OptionStrategy::Strangle)
        } else if str_eq(s, "RiskReversal") {
            assert(strategy_name(OptionStrategy::RiskReversal) == s@);
            Ok(OptionStrategy::RiskReversal)
        } else if str_eq(s, "Butterfly") {
            assert(strategy_name(OptionStrategy::Butterfly) == s@);
            Ok(OptionStrategy::Butterfly)
        } else {
            proof {
                assert forall|o: OptionStrategy| strategy_name(o) != s@ by {
                    match o {
                        OptionStrategy::Straddle => {},
                        OptionStrategy::Strangle => {},
                        OptionStrategy::RiskReversal => {},
                        OptionStrategy::Butterfly => {},
                    }
                }
            }
            Err(QSError::InvalidValue(s.to_owned()))
        }
    }
}

impl std::str::FromStr for OptionStrategy {
    type Err = QSError;

    fn from_str(s: &str) -> (r: Result<OptionStrategy, QSError>)
        ensures
            r is Ok <==> (exists|o: OptionStrategy| strategy_name(o) == s@),
            r matches Ok(o) ==> strategy_name(o) == s@ && strategy_of_name(s@) == Some(o),
            r matches Err(e) ==> (e matches QSError::InvalidValue(t) && t@ == s@),
    {
        OptionStrategy::parse(s)
    }
}

/// A quote: details and levels.
#[derive(Debug)]
pub struct Quote<T> {
    details: QuoteDetails,
    levels: QuoteLevels<T>,
}

impl<T: Copy> Quote<T> {
    /// The quote details.
    pub closed spec fn spec_details(&self) -> QuoteDetails {
        self.details
    }

    /// The quote levels.
    pub closed spec fn spec_levels(&self) -> QuoteLevels<T> {
        self.levels
    }

    /// Creates a new quote.
    pub fn new(details: QuoteDetails, levels: QuoteLevels<T>) -> (r: Self)
        ensures
            r.spec_details() == details,
            r.spec_levels() == levels,
    {
        Self { details, levels }
    }

    /// Returns the quote details.
    pub fn details(&self) -> (r: &QuoteDetails)
        ensures
            *r == self.spec_details(),
    {
        &self.details
    }

    /// Returns the quote levels.
    pub fn levels(&self) -> (r: &QuoteLevels<T>)
        ensures
            *r == self.spec_levels(),
    {
        &self.levels
    }

    /// A copy of the quote.
    pub fn duplicate(&self) -> (r: Self)
        ensures
            r == *self,
    {
        Quote { details: self.details.duplicate(), levels: self.levels }
    }
}

/// Resolves market quotes by identifier.
pub trait QuoteSelector<T> {
    /// The quote selected for an identifier, if any.
    spec fn spec_select(&self, identifier: Seq<char>) -> Option<Quote<T>>;

    /// Returns the quote for the identifier, if available.
    fn select(&self, identifier: &str) -> (r: Option<Quote<T>>)
        ensures
            r == self.spec_select(identifier@),
    ;

    /// The reference date of the quotes.
    spec fn spec_reference_date(&self) -> crate::time::Date;

    /// Returns the reference date of the quotes.
    fn reference_date(&self) -> (r: crate::time::Date)
        ensures
            r == self.spec_reference_date(),
    ;
}

} // verus!
