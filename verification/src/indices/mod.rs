//! Market indices.
use vstd::prelude::*;

use crate::currencies::Currency;
use crate::errors::QSError;
use crate::text::str_eq;

verus! {

/// A market index: an interest rate index, a collateral curve, a credit
/// entity, an equity, or another named index.
#[derive(Clone, Debug)]
pub enum MarketIndex {
    SOFR,
    TermSOFR3m,
    ICP,
    ESTR,
    /// Curve of instruments in the first currency collateralized in the second.
    Collateral(Currency, Currency),
    /// Survival curve of a reference entity.
    Credit(String),
    /// Equity underlying.
    Equity(String),
    /// Any other named index.
    Other(String),
}

/// What identifies a market index: its kind, the currencies of a collateral
/// index, and the name of a credit, equity or other index.
pub open spec fn index_key(m: MarketIndex) -> (int, Option<(Currency, Currency)>, Seq<char>) {
    match m {
        MarketIndex::SOFR => (0, None, seq![]),
        MarketIndex::TermSOFR3m => (1, None, seq![]),
        MarketIndex::ICP => (2, None, seq![]),
        MarketIndex::ESTR => (3, None, seq![]),
        MarketIndex::Collateral(a, b) => (4, Some((a, b)), seq![]),
        MarketIndex::Credit(s) => (5, None, s@),
        MarketIndex::Equity(s) => (6, None, s@),
        MarketIndex::Other(s) => (7, None, s@),
    }
}

impl MarketIndex {
    /// Whether two market indices are the same index.
    pub fn same_as(&self, other: &MarketIndex) -> (r: bool)
        ensures
            r == (index_key(*self) == index_key(*other)),
    {
        match (self, other) {
            (MarketIndex::SOFR, MarketIndex::SOFR) => true,
            (MarketIndex::TermSOFR3m, MarketIndex::TermSOFR3m) => true,
            (MarketIndex::ICP, MarketIndex::ICP) => true,
            (MarketIndex::ESTR, MarketIndex::ESTR) => true,
            (MarketIndex::Collateral(a, b), MarketIndex::Collateral(c, d)) => *a == *c && *b == *d,
            (MarketIndex::Credit(s), MarketIndex::Credit(t)) => str_eq(s.as_str(), t.as_str()),
            (MarketIndex::Equity(s), MarketIndex::Equity(t)) => str_eq(s.as_str(), t.as_str()),
            (MarketIndex::Other(s), MarketIndex::Other(t)) => str_eq(s.as_str(), t.as_str()),
            _ => false,
        }
    }

    /// The currencies of a collateral index.
    pub fn collateral_currencies(&self) -> (r: Option<(Currency, Currency)>)
        ensures
            r == index_key(*self).1,
    {
        match self {
            MarketIndex::Collateral(a, b) => Some((*a, *b)),
            _ => None,
        }
    }

    /// A copy of the index.
    pub fn duplicate(&self) -> (r: MarketIndex)
        ensures
            r == *self,
    {
        match self {
            MarketIndex::SOFR => MarketIndex::SOFR,
            MarketIndex::TermSOFR3m => MarketIndex::TermSOFR3m,
            MarketIndex::ICP => MarketIndex::ICP,
            MarketIndex::ESTR => MarketIndex::ESTR,
            MarketIndex::Collateral(a, b) => MarketIndex::Collateral(*a, *b),
            MarketIndex::Credit(s) => MarketIndex::Credit(s.clone()),
            MarketIndex::Equity(s) => MarketIndex::Equity(s.clone()),
            MarketIndex::Other(s) => MarketIndex::Other(s.clone()),
        }
    }
}


/// The index named `s`: the rate indices by their names, any other non-empty
/// name an index of its own (`Other`).
pub open spec fn index_of_name(s: Seq<char>) -> Option<(int, Option<(Currency, Currency)>, Seq<char>)> {
    if s == "SOFR"@ {
        Some(index_key(MarketIndex::SOFR))
    } else if s == "TermSOFR3m"@ {
        Some(index_key(MarketIndex::TermSOFR3m))
    } else if s == "ICP"@ {
        Some(index_key(MarketIndex::ICP))
    } else if s == "ESTR"@ {
        Some(index_key(MarketIndex::ESTR))
    } else if s.len() > 0 {
        Some((7, None, s))
    } else {
        None
    }
}

impl MarketIndex {
    /// Parses an index name (see [`index_of_name`]).
    pub fn parse(s: &str) -> (r: Result<MarketIndex, QSError>)
        ensures
            r is Ok <==> index_of_name(s@) is Some,
            r matches Ok(m) ==> index_of_name(s@) == Some(index_key(m)),
            r matches Err(e) ==> (e matches QSError::InvalidValue(t) && t@ == s@),
    {
        if str_eq(s, "SOFR") {
            Ok(MarketIndex::SOFR)
        } else if str_eq(s, "TermSOFR3m") {
            Ok(MarketIndex::TermSOFR3m)
        } else if str_eq(s, "ICP") {
            Ok(MarketIndex::ICP)
        } else if str_eq(s, "ESTR") {
            Ok(MarketIndex::ESTR)
        } else if s.unicode_len() > 0 {
            Ok(MarketIndex::Other(s.to_owned()))
        } else {
            Err(QSError::InvalidValue(s.to_owned()))
        }
    }
}

impl std::str::FromStr for MarketIndex {
    type Err = QSError;

    fn from_str(s: &str) -> (r: Result<MarketIndex, QSError>)
        ensures
            r is Ok <==> index_of_name(s@) is Some,
            r matches Ok(m) ==> index_of_name(s@) == Some(index_key(m)),
            r matches Err(e) ==> (e matches QSError::InvalidValue(t) && t@ == s@),
    {
        MarketIndex::parse(s)
    }
}

} // verus!
