//! Errors reported by the library.
use vstd::prelude::*;

use crate::currencies::Currency;
use crate::indices::MarketIndex;
use crate::time::Date;

verus! {

/// Errors of the library. Each variant carries the data that identifies what
/// went wrong (an identifier, an index id, currencies, dates, ...).
#[derive(Clone, Debug)]
pub enum QSError {
    /// A textual value could not be parsed; carries the offending text.
    InvalidValue(String),
    /// No index is stored under the given id.
    IndexNotFound(usize),
    /// An index is already stored under the given id.
    IndexAlreadyExists(usize),
    /// The index to be replaced is not stored under the given id.
    IndexDoesNotExist(usize),
    /// An index reference date (second) differs from the store reference date (first).
    ReferenceDateMismatch(Date, Date),
    /// No curve is mapped to the currency.
    CurrencyCurveNotFound(Currency),
    /// No index with the given name is stored.
    IndexNameNotFound(String),
    /// No chain of stored exchange rates connects the two currencies.
    NoExchangeRatePath(Currency, Currency),
    /// No quote with the given identifier is available.
    QuoteNotFound(String),
    /// The quote with the given identifier needs an FX spot rate and none is available.
    MissingFxSpot(String),
    /// Curves depend on the curve of the given index, which is not configured.
    MissingCurve(MarketIndex),
    /// The configured curves depend on each other in a cycle.
    DependencyCycle,
    /// The curve of the given index has no pillar quotes.
    EmptyCurve(MarketIndex),
    /// Two pillars of the curve of the given index mature on the same date.
    DuplicatePillarMaturity(MarketIndex),
    /// A requested quote level is not available.
    LevelNotAvailable,
    /// A date computation left the representable calendar range.
    DateOutOfRange,
    /// A scenario matched no quote; carries the scenario target.
    NoMatchingQuote(String),
    /// The market data needed to choose a discount curve was not provided.
    MarketDataNotAvailable,
    /// No discount curve in the given currency is available.
    NoDiscountCurve(Currency),
    /// Several discount curves in the given currency are available and none
    /// is chosen.
    AmbiguousDiscountCurve(Currency),
    /// A date range ends (second) before it starts (first).
    InvalidDateRange(Date, Date),
    /// The date is not valid for the computation asked.
    InvalidDate(Date),
    /// No fixing is stored for the date.
    NoFixingRate(Date),
    /// A forecast needs a term structure and none is set.
    NoTermStructure,
}

} // verus!
