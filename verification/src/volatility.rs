//! Volatility quoting conventions: strikes and volatility types.
use vstd::prelude::*;
use vstd::string::*;

use crate::errors::QSError;
use crate::text::str_eq;

verus! {

/// How a volatility strike is expressed.
#[derive(Clone, Copy, Debug, PartialEq, Eq, Structural)]
pub enum StrikeKind {
    /// An absolute strike level.
    Absolute,
    /// A strike relative to the at-the-money level.
    Relative,
    /// At the money.
    Atm,
}

/// A strike: its kind and, when given, the text of its value (no value
/// stands for zero; an at-the-money strike carries none).
#[derive(Clone, Debug)]
pub struct Strike {
    pub kind: StrikeKind,
    pub value: Option<String>,
}

impl Strike {
    /// A copy of the strike.
    pub fn duplicate(&self) -> (r: Strike)
        ensures
            r == *self,
    {
        Strike {
            kind: self.kind,
            value: match &self.value {
                Some(t) => Some(t.clone()),
                None => None,
            },
        }
    }
}

/// The kind and value text of a strike.
pub open spec fn strike_view(s: Strike) -> (StrikeKind, Option<Seq<char>>) {
    (
        s.kind,
        match s.value {
            Some(t) => Some(t@),
            None => None,
        },
    )
}

/// Convention in which a volatility is quoted.
#[derive(Clone, Copy, Debug, PartialEq, Eq, Structural)]
pub enum VolatilityType {
    /// Lognormal (Black) volatility.
    Black,
    /// Normal (Bachelier) volatility.
    Normal,
}

/// The strike kind named `s`.
pub open spec fn strike_kind_of_name(s: Seq<char>) -> Option<StrikeKind> {
    if s == "Absolute"@ {
        Some(StrikeKind::Absolute)
    } else if s == "Relative"@ {
        Some(StrikeKind::Relative)
    } else if s == "Atm"@ {
        Some(StrikeKind::Atm)
    } else {
        None
    }
}

/// The volatility type named `s`.
pub open spec fn vol_type_of_name(s: Seq<char>) -> Option<VolatilityType> {
    if s == "Black"@ {
        Some(VolatilityType::Black)
    } else if s == "Normal"@ {
        Some(VolatilityType::Normal)
    } else {
        None
    }
}

impl StrikeKind {
    /// Parses a strike kind name (`Absolute`, `Relative`, `Atm`).
    pub fn parse(s: &str) -> (r: Result<StrikeKind, QSError>)
        ensures
            r is Ok <==> strike_kind_of_name(s@) is Some,
            r matches Ok(k) ==> strike_kind_of_name(s@) == Some(k),
            r matches Err(e) ==> (e matches QSError::InvalidValue(t) && t@ == s@),
    {
        if str_eq(s, "Absolute") {
            Ok(StrikeKind::Absolute)
        } else if str_eq(s, "Relative") {
            Ok(StrikeKind::Relative)
        } else if str_eq(s, "Atm") {
            Ok(StrikeKind::Atm)
        } else {
            Err(QSError::InvalidValue(s.to_owned()))
        }
    }
}

impl VolatilityType {
    /// Parses a volatility type name (`Black`, `Normal`).
    pub fn parse(s: &str) -> (r: Result<VolatilityType, QSError>)
        ensures
            r is Ok <==> vol_type_of_name(s@) is Some,
            r matches Ok(v) ==> vol_type_of_name(s@) == Some(v),
            r matches Err(e) ==> (e matches QSError::InvalidValue(t) && t@ == s@),
    {
        if str_eq(s, "Black") {
            Ok(VolatilityType::Black)
        } else if str_eq(s, "Normal") {
            Ok(VolatilityType::Normal)
        } else {
            Err(QSError::InvalidValue(s.to_owned()))
        }
    }
}

} // verus!
