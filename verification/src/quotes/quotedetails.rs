//! Quote details: what a quote identifier says about its instrument, and the
//! grammar of quote identifiers.
//!
//! An identifier is a list of segments separated by a separator character
//! (`_` by default); the first segment names the instrument and fixes the
//! meaning of the others:
//!
//! | Instrument | Segments after the first |
//! |---|---|
//! | `OIS` | CCY, Index, Tenor, \[PayFreq, \[RecvFreq\]\] |
//! | `FixedRateDeposit` | CCY, Index, Tenor |
//! | `Cds` | Entity, CCY, Tenor |
//! | `BasisSwap` | CCY, PayIndex, RecvIndex, Tenor, \[PayFreq, \[RecvFreq\]\] |
//! | `FixFloatCrossCurrencySwap` | DomCCY, FloatIndex, ForCCY, Tenor, \[DomFreq, \[ForFreq\]\] |
//! | `FloatFloatCrossCurrencySwap` | DomCCY, DomIndex, ForIndex, ForCCY, Tenor, \[DomFreq, \[ForFreq\]\] |
//! | `CapFloor` | CCY, Index, Tenor, \[Freq\], Strike, \[StrikeValue\], VolType |
//! | `CapletFloorlet` | CCY, Index, IdxTenor, Expiry, Strike, \[StrikeValue\], Strategy, VolType |
//! | `Future`, `ConvexityAdjustment` | CCY, Index, ContractCode |
//! | `Swaption` | CCY, Index, Expiry, SwapTenor, \[PayFreq, \[RecvFreq\]\], Strike, \[StrikeValue\], VolType |
//! | `FxOutrightForward` (also `FxForwardOutright`, `ForwardOutright`), `FxForwardPoints` | CCYPAIR, Tenor |
//! | `EquityCall`, `EquityPut` | CCY, Index, Tenor, Strike |
//! | `FxCall`, `FxPut` | CCYPAIR, Tenor, Strike |
use vstd::prelude::*;
use vstd::string::*;

use crate::currencies::{code_currency, Currency};
use crate::errors::QSError;
use crate::indices::{index_key, index_of_name, MarketIndex};
use crate::quotes::quote::{
    fx_pair_of_text, instrument_of_name, parse_fx_pair, strategy_of_name, OptionStrategy,
    QuoteInstrument,
};
use crate::text::{is_number_text, number_text, split_spec, split_str, strs_view};
use crate::time::{frequency_of_name, period_of_text, Date, Frequency, Period};
use crate::volatility::{
    strike_kind_of_name, strike_view, vol_type_of_name, Strike, StrikeKind, VolatilityType,
};

verus! {

/// What quote details say, with texts as character sequences and market
/// indices by their keys.
pub struct DetailsView {
    pub identifier: Seq<char>,
    pub instrument: QuoteInstrument,
    pub market_index: Option<(int, Option<(Currency, Currency)>, Seq<char>)>,
    pub strategy: Option<OptionStrategy>,
    pub vol_type: Option<VolatilityType>,
    pub pay_currency: Option<Currency>,
    pub receive_currency: Option<Currency>,
    pub strike: Option<(StrikeKind, Option<Seq<char>>)>,
    pub maturity: Option<Date>,
    pub tenor: Option<Period>,
    pub currency: Option<Currency>,
    pub secondary_market_index: Option<(int, Option<(Currency, Currency)>, Seq<char>)>,
    pub option_expiry: Option<Period>,
    pub contract_code: Option<Seq<char>>,
    pub index_tenor: Option<Period>,
    pub pay_leg_frequency: Option<Frequency>,
    pub receive_leg_frequency: Option<Frequency>,
}

/// Details with only an identifier and an instrument.
pub open spec fn bare_details(id: Seq<char>, instrument: QuoteInstrument) -> DetailsView {
    DetailsView {
        identifier: id,
        instrument,
        market_index: None,
        strategy: None,
        vol_type: None,
        pay_currency: None,
        receive_currency: None,
        strike: None,
        maturity: None,
        tenor: None,
        currency: None,
        secondary_market_index: None,
        option_expiry: None,
        contract_code: None,
        index_tenor: None,
        pay_leg_frequency: None,
        receive_leg_frequency: None,
    }
}

/// Up to two frequencies read from segment `start` on: the pay frequency, the
/// receive frequency (only after a pay frequency), and the position of the
/// first segment not read.
pub open spec fn frequencies_at(p: Seq<Seq<char>>, start: int) -> (
    Option<Frequency>,
    Option<Frequency>,
    int,
) {
    if 0 <= start < p.len() && frequency_of_name(p[start]) is Some {
        if start + 1 < p.len() && frequency_of_name(p[start + 1]) is Some {
            (frequency_of_name(p[start]), frequency_of_name(p[start + 1]), start + 2)
        } else {
            (frequency_of_name(p[start]), None, start + 1)
        }
    } else {
        (None, None, start)
    }
}

/// `OIS` identifiers.
pub open spec fn ois_details(id: Seq<char>, p: Seq<Seq<char>>) -> Option<DetailsView> {
    if p.len() >= 4 && code_currency(p[1]) is Some && index_of_name(p[2]) is Some && period_of_text(
        p[3],
    ) is Some {
        let f = frequencies_at(p, 4);
        Some(
            DetailsView {
                market_index: index_of_name(p[2]),
                currency: code_currency(p[1]),
                tenor: period_of_text(p[3]),
                pay_leg_frequency: f.0,
                receive_leg_frequency: f.1,
                ..bare_details(id, QuoteInstrument::OIS)
            },
        )
    } else {
        None
    }
}

/// `FixedRateDeposit` identifiers.
pub open spec fn deposit_details(id: Seq<char>, p: Seq<Seq<char>>) -> Option<DetailsView> {
    if p.len() >= 4 && code_currency(p[1]) is Some && index_of_name(p[2]) is Some && period_of_text(
        p[3],
    ) is Some {
        Some(
            DetailsView {
                market_index: index_of_name(p[2]),
                currency: code_currency(p[1]),
                tenor: period_of_text(p[3]),
                ..bare_details(id, QuoteInstrument::FixedRateDeposit)
            },
        )
    } else {
        None
    }
}

/// `Cds` identifiers: the entity names the credit index.
pub open spec fn cds_details(id: Seq<char>, p: Seq<Seq<char>>) -> Option<DetailsView> {
    if p.len() >= 4 && code_currency(p[2]) is Some && period_of_text(p[3]) is Some {
        Some(
            DetailsView {
                market_index: Some((5, None, p[1])),
                currency: code_currency(p[2]),
                tenor: period_of_text(p[3]),
                ..bare_details(id, QuoteInstrument::Cds)
            },
        )
    } else {
        None
    }
}

/// `BasisSwap` identifiers.
pub open spec fn basis_swap_details(id: Seq<char>, p: Seq<Seq<char>>) -> Option<DetailsView> {
    if p.len() >= 5 && code_currency(p[1]) is Some && index_of_name(p[2]) is Some && index_of_name(
        p[3],
    ) is Some && period_of_text(p[4]) is Some {
        let f = frequencies_at(p, 5);
        Some(
            DetailsView {
                market_index: index_of_name(p[2]),
                currency: code_currency(p[1]),
                secondary_market_index: index_of_name(p[3]),
                tenor: period_of_text(p[4]),
                pay_leg_frequency: f.0,
                receive_leg_frequency: f.1,
                ..bare_details(id, QuoteInstrument::BasisSwap)
            },
        )
    } else {
        None
    }
}

/// `FixFloatCrossCurrencySwap` identifiers.
pub open spec fn fix_float_xccy_details(id: Seq<char>, p: Seq<Seq<char>>) -> Option<DetailsView> {
    if p.len() >= 5 && code_currency(p[1]) is Some && index_of_name(p[2]) is Some && code_currency(
        p[3],
    ) is Some && period_of_text(p[4]) is Some {
        let f = frequencies_at(p, 5);
        Some(
            DetailsView {
                market_index: index_of_name(p[2]),
                currency: code_currency(p[1]),
                pay_currency: code_currency(p[1]),
                receive_currency: code_currency(p[3]),
                tenor: period_of_text(p[4]),
                pay_leg_frequency: f.0,
                receive_leg_frequency: f.1,
                ..bare_details(id, QuoteInstrument::FixFloatCrossCurrencySwap)
            },
        )
    } else {
        None
    }
}

/// `FloatFloatCrossCurrencySwap` identifiers.
pub open spec fn float_float_xccy_details(id: Seq<char>, p: Seq<Seq<char>>) -> Option<DetailsView> {
    if p.len() >= 6 && code_currency(p[1]) is Some && index_of_name(p[2]) is Some && index_of_name(
        p[3],
    ) is Some && code_currency(p[4]) is Some && period_of_text(p[5]) is Some {
        let f = frequencies_at(p, 6);
        Some(
            DetailsView {
                market_index: index_of_name(p[2]),
                currency: code_currency(p[1]),
                pay_currency: code_currency(p[1]),
                receive_currency: code_currency(p[4]),
                secondary_market_index: index_of_name(p[3]),
                tenor: period_of_text(p[5]),
                pay_leg_frequency: f.0,
                receive_leg_frequency: f.1,
                ..bare_details(id, QuoteInstrument::FloatFloatCrossCurrencySwap)
            },
        )
    } else {
        None
    }
}

/// A strike of kind `kind` with the value text `value`, if given; an
/// at-the-money strike keeps no value.
pub open spec fn strike_with(kind: StrikeKind, value: Option<Seq<char>>) -> (StrikeKind, Option<Seq<char>>) {
    if kind == StrikeKind::Atm {
        (kind, None)
    } else {
        (kind, value)
    }
}

/// The strike read at segment `at` (its kind) and, when segment `at + 1` is a
/// number, its value; and the position of the segment after the strike.
pub open spec fn strike_at(p: Seq<Seq<char>>, at: int) -> ((StrikeKind, Option<Seq<char>>), int) {
    let kind = strike_kind_of_name(p[at])->0;
    if at + 1 < p.len() && is_number_text(p[at + 1]) {
        (strike_with(kind, Some(p[at + 1])), at + 2)
    } else {
        (strike_with(kind, None), at + 1)
    }
}

/// The strike and volatility type read from segment `at` on are well formed.
pub open spec fn strike_and_vol_at(p: Seq<Seq<char>>, at: int) -> bool {
    &&& 0 <= at < p.len()
    &&& strike_kind_of_name(p[at]) is Some
    &&& strike_at(p, at).1 < p.len()
    &&& vol_type_of_name(p[strike_at(p, at).1]) is Some
}

/// `CapFloor` identifiers.
pub open spec fn cap_floor_details(id: Seq<char>, p: Seq<Seq<char>>) -> Option<DetailsView> {
    let next: int = if frequency_of_name(p[4]) is Some {
        5
    } else {
        4
    };
    if p.len() >= 6 && code_currency(p[1]) is Some && index_of_name(p[2]) is Some && period_of_text(
        p[3],
    ) is Some && strike_and_vol_at(p, next) {
        Some(
            DetailsView {
                market_index: index_of_name(p[2]),
                currency: code_currency(p[1]),
                tenor: period_of_text(p[3]),
                strike: Some(strike_at(p, next).0),
                vol_type: vol_type_of_name(p[strike_at(p, next).1]),
                pay_leg_frequency: frequency_of_name(p[4]),
                ..bare_details(id, QuoteInstrument::CapFloor)
            },
        )
    } else {
        None
    }
}

/// `CapletFloorlet` identifiers.
pub open spec fn caplet_floorlet_details(id: Seq<char>, p: Seq<Seq<char>>) -> Option<DetailsView> {
    let kind = strike_kind_of_name(p[5])->0;
    let strike = if is_number_text(p[6]) {
        strike_with(kind, Some(p[6]))
    } else {
        strike_with(kind, None)
    };
    let next: int = if is_number_text(p[6]) {
        7
    } else {
        6
    };
    if p.len() >= 8 && code_currency(p[1]) is Some && index_of_name(p[2]) is Some && period_of_text(
        p[3],
    ) is Some && period_of_text(p[4]) is Some && strike_kind_of_name(p[5]) is Some
        && strategy_of_name(p[next]) is Some && next + 1 < p.len() && vol_type_of_name(p[next + 1]) is Some {
        Some(
            DetailsView {
                market_index: index_of_name(p[2]),
                currency: code_currency(p[1]),
                index_tenor: period_of_text(p[3]),
                option_expiry: period_of_text(p[4]),
                strike: Some(strike),
                strategy: strategy_of_name(p[next]),
                vol_type: vol_type_of_name(p[next + 1]),
                ..bare_details(id, QuoteInstrument::CapletFloorlet)
            },
        )
    } else {
        None
    }
}

/// `Future` and `ConvexityAdjustment` identifiers: the last segment is the
/// contract code.
pub open spec fn contract_details(id: Seq<char>, p: Seq<Seq<char>>, instrument: QuoteInstrument) -> Option<DetailsView> {
    if p.len() >= 4 && code_currency(p[1]) is Some && index_of_name(p[2]) is Some {
        Some(
            DetailsView {
                market_index: index_of_name(p[2]),
                currency: code_currency(p[1]),
                contract_code: Some(p[3]),
                ..bare_details(id, instrument)
            },
        )
    } else {
        None
    }
}

/// `Swaption` identifiers.
pub open spec fn swaption_details(id: Seq<char>, p: Seq<Seq<char>>) -> Option<DetailsView> {
    let f = frequencies_at(p, 5);
    if p.len() >= 7 && code_currency(p[1]) is Some && index_of_name(p[2]) is Some && period_of_text(
        p[3],
    ) is Some && period_of_text(p[4]) is Some && strike_and_vol_at(p, f.2) {
        Some(
            DetailsView {
                market_index: index_of_name(p[2]),
                currency: code_currency(p[1]),
                option_expiry: period_of_text(p[3]),
                tenor: period_of_text(p[4]),
                strike: Some(strike_at(p, f.2).0),
                vol_type: vol_type_of_name(p[strike_at(p, f.2).1]),
                pay_leg_frequency: f.0,
                receive_leg_frequency: f.1,
                ..bare_details(id, QuoteInstrument::EuropeanSwaption)
            },
        )
    } else {
        None
    }
}

/// FX forward identifiers (outright or points): a currency pair and a tenor.
pub open spec fn fx_forward_details(id: Seq<char>, p: Seq<Seq<char>>, instrument: QuoteInstrument) -> Option<DetailsView> {
    if p.len() >= 3 && fx_pair_of_text(p[1]) is Some && period_of_text(p[2]) is Some {
        let pair = fx_pair_of_text(p[1])->0;
        Some(
            DetailsView {
                pay_currency: Some(pair.0),
                receive_currency: Some(pair.1),
                tenor: period_of_text(p[2]),
                ..bare_details(id, instrument)
            },
        )
    } else {
        None
    }
}

/// Equity option identifiers: currency, underlying, expiry and an absolute strike.
pub open spec fn equity_option_details(id: Seq<char>, p: Seq<Seq<char>>, instrument: QuoteInstrument) -> Option<DetailsView> {
    if p.len() >= 5 && code_currency(p[1]) is Some && index_of_name(p[2]) is Some && period_of_text(
        p[3],
    ) is Some && is_number_text(p[4]) {
        Some(
            DetailsView {
                market_index: index_of_name(p[2]),
                currency: code_currency(p[1]),
                tenor: period_of_text(p[3]),
                strike: Some((StrikeKind::Absolute, Some(p[4]))),
                ..bare_details(id, instrument)
            },
        )
    } else {
        None
    }
}

/// FX option identifiers: currency pair, expiry and an absolute strike.
pub open spec fn fx_option_details(id: Seq<char>, p: Seq<Seq<char>>, instrument: QuoteInstrument) -> Option<DetailsView> {
    if p.len() >= 4 && fx_pair_of_text(p[1]) is Some && period_of_text(p[2]) is Some
        && is_number_text(p[3]) {
        let pair = fx_pair_of_text(p[1])->0;
        Some(
            DetailsView {
                pay_currency: Some(pair.0),
                receive_currency: Some(pair.1),
                tenor: period_of_text(p[2]),
                strike: Some((StrikeKind::Absolute, Some(p[3]))),
                ..bare_details(id, instrument)
            },
        )
    } else {
        None
    }
}

/// The details of identifier `id` split into segments `p`: at least three
/// segments, the first naming the instrument, the others read by the grammar
/// of that instrument.
pub open spec fn details_of_segments(id: Seq<char>, p: Seq<Seq<char>>) -> Option<DetailsView> {
    if p.len() < 3 {
        None
    } else {
        match instrument_of_name(p[0]) {
            None => None,
            Some(i) => match i {
                QuoteInstrument::OIS => ois_details(id, p),
                QuoteInstrument::FixedRateDeposit => deposit_details(id, p),
                QuoteInstrument::BasisSwap => basis_swap_details(id, p),
                QuoteInstrument::FixFloatCrossCurrencySwap => fix_float_xccy_details(id, p),
                QuoteInstrument::CapFloor => cap_floor_details(id, p),
                QuoteInstrument::CapletFloorlet => caplet_floorlet_details(id, p),
                QuoteInstrument::Future => contract_details(id, p, QuoteInstrument::Future),
                QuoteInstrument::ConvexityAdjustment => contract_details(
                    id,
                    p,
                    QuoteInstrument::ConvexityAdjustment,
                ),
                QuoteInstrument::EuropeanSwaption => swaption_details(id, p),
                QuoteInstrument::FxOutrightForward => fx_forward_details(
                    id,
                    p,
                    QuoteInstrument::FxOutrightForward,
                ),
                QuoteInstrument::FloatFloatCrossCurrencySwap => float_float_xccy_details(id, p),
                QuoteInstrument::FxForwardPoints => fx_forward_details(
                    id,
                    p,
                    QuoteInstrument::FxForwardPoints,
                ),
                QuoteInstrument::EquityCall => equity_option_details(id, p, QuoteInstrument::EquityCall),
                QuoteInstrument::EquityPut => equity_option_details(id, p, QuoteInstrument::EquityPut),
                QuoteInstrument::FxCall => fx_option_details(id, p, QuoteInstrument::FxCall),
                QuoteInstrument::FxPut => fx_option_details(id, p, QuoteInstrument::FxPut),
                QuoteInstrument::Cds => cds_details(id, p),
            },
        }
    }
}

/// The details of identifier `s` with segments separated by `separator`.
pub open spec fn details_of_identifier(s: Seq<char>, separator: char) -> Option<DetailsView> {
    details_of_segments(s, split_spec(s, separator))
}

/// Parsed details keep the identifier they were parsed from, and their
/// instrument is the one the first segment names.
pub proof fn lemma_parsed_identifier(s: Seq<char>, separator: char)
    ensures
        details_of_identifier(s, separator) matches Some(d) ==> d.identifier == s && Some(d.instrument)
            == instrument_of_name(split_spec(s, separator)[0]),
{
}

/// The key of an optional market index.
pub open spec fn opt_index_key(m: Option<MarketIndex>) -> Option<(int, Option<(Currency, Currency)>, Seq<char>)> {
    match m {
        Some(i) => Some(index_key(i)),
        None => None,
    }
}

/// The characters of an optional string.
pub open spec fn opt_text(s: Option<String>) -> Option<Seq<char>> {
    match s {
        Some(t) => Some(t@),
        None => None,
    }
}

/// All details related to a quote: its identifier, its instrument and the
/// terms that the identifier or the builder methods give.
#[derive(Debug)]
pub struct QuoteDetails {
    identifier: String,
    instrument: QuoteInstrument,
    market_index: Option<MarketIndex>,
    strategy: Option<OptionStrategy>,
    vol_type: Option<VolatilityType>,
    pay_currency: Option<Currency>,
    receive_currency: Option<Currency>,
    strike: Option<Strike>,
    maturity: Option<Date>,
    tenor: Option<Period>,
    currency: Option<Currency>,
    secondary_market_index: Option<MarketIndex>,
    option_expiry: Option<Period>,
    contract_code: Option<String>,
    index_tenor: Option<Period>,
    pay_leg_frequency: Option<Frequency>,
    receive_leg_frequency: Option<Frequency>,
}

impl View for QuoteDetails {
    type V = DetailsView;

    closed spec fn view(&self) -> DetailsView {
        DetailsView {
            identifier: self.identifier@,
            instrument: self.instrument,
            market_index: opt_index_key(self.market_index),
            strategy: self.strategy,
            vol_type: self.vol_type,
            pay_currency: self.pay_currency,
            receive_currency: self.receive_currency,
            strike: match self.strike {
                Some(k) => Some(strike_view(k)),
                None => None,
            },
            maturity: self.maturity,
            tenor: self.tenor,
            currency: self.currency,
            secondary_market_index: opt_index_key(self.secondary_market_index),
            option_expiry: self.option_expiry,
            contract_code: opt_text(self.contract_code),
            index_tenor: self.index_tenor,
            pay_leg_frequency: self.pay_leg_frequency,
            receive_leg_frequency: self.receive_leg_frequency,
        }
    }
}

impl QuoteDetails {
    /// Creates quote details with an identifier and an instrument, and no
    /// other terms.
    pub fn new(identifier: String, instrument: QuoteInstrument) -> (r: Self)
        ensures
            r@ == bare_details(identifier@, instrument),
    {
        QuoteDetails {
            identifier,
            instrument,
            market_index: None,
            strategy: None,
            vol_type: None,
            pay_currency: None,
            receive_currency: None,
            strike: None,
            maturity: None,
            tenor: None,
            currency: None,
            secondary_market_index: None,
            option_expiry: None,
            contract_code: None,
            index_tenor: None,
            pay_leg_frequency: None,
            receive_leg_frequency: None,
        }
    }


    /// Returns the quote identifier.
    pub fn identifier(&self) -> (r: String)
        ensures
            r@ == self@.identifier,
    {
        self.identifier.clone()
    }

    /// Returns the primary market index.
    pub fn market_index(&self) -> (r: Option<&MarketIndex>)
        ensures
            (match r { Some(m) => Some(index_key(*m)), None => None }) == self@.market_index,
    {
        match &self.market_index { Some(m) => Some(m), None => None }
    }

    /// Returns the instrument.
    pub fn instrument(&self) -> (r: &QuoteInstrument)
        ensures
            *r == self@.instrument,
    {
        &self.instrument
    }

    /// Returns the option strategy.
    pub fn strategy(&self) -> (r: Option<OptionStrategy>)
        ensures
            r == self@.strategy,
    {
        self.strategy
    }

    /// Returns the volatility type.
    pub fn vol_type(&self) -> (r: Option<&VolatilityType>)
        ensures
            (match r { Some(v) => Some(*v), None => None }) == self@.vol_type,
    {
        match &self.vol_type { Some(v) => Some(v), None => None }
    }

    /// Returns the pay (or domestic, or base) currency.
    pub fn pay_currency(&self) -> (r: Option<Currency>)
        ensures
            r == self@.pay_currency,
    {
        self.pay_currency
    }

    /// Returns the receive (or foreign, or quote) currency.
    pub fn receive_currency(&self) -> (r: Option<Currency>)
        ensures
            r == self@.receive_currency,
    {
        self.receive_currency
    }

    /// Returns the strike.
    pub fn strike(&self) -> (r: Option<&Strike>)
        ensures
            (match r { Some(k) => Some(strike_view(*k)), None => None }) == self@.strike,
    {
        match &self.strike { Some(k) => Some(k), None => None }
    }

    /// Returns the maturity date.
    pub fn maturity(&self) -> (r: Option<Date>)
        ensures
            r == self@.maturity,
    {
        self.maturity
    }

    /// Returns the tenor.
    pub fn tenor(&self) -> (r: Option<Period>)
        ensures
            r == self@.tenor,
    {
        self.tenor
    }

    /// Returns the primary currency.
    pub fn currency(&self) -> (r: Option<Currency>)
        ensures
            r == self@.currency,
    {
        self.currency
    }

    /// Returns the secondary market index (e.g. the receive leg index of a basis swap).
    pub fn secondary_market_index(&self) -> (r: Option<&MarketIndex>)
        ensures
            (match r { Some(m) => Some(index_key(*m)), None => None }) == self@.secondary_market_index,
    {
        match &self.secondary_market_index { Some(m) => Some(m), None => None }
    }

    /// Returns the option expiry tenor.
    pub fn option_expiry(&self) -> (r: Option<Period>)
        ensures
            r == self@.option_expiry,
    {
        self.option_expiry
    }

    /// Returns the futures contract code.
    pub fn contract_code(&self) -> (r: Option<&str>)
        ensures
            (match r { Some(c) => Some(c@), None => None }) == self@.contract_code,
    {
        match &self.contract_code { Some(c) => Some(c.as_str()), None => None }
    }

    /// Returns the tenor of the underlying index.
    pub fn index_tenor(&self) -> (r: Option<Period>)
        ensures
            r == self@.index_tenor,
    {
        self.index_tenor
    }

    /// Returns the pay (or fixed, or domestic) leg frequency.
    pub fn pay_leg_frequency(&self) -> (r: Option<Frequency>)
        ensures
            r == self@.pay_leg_frequency,
    {
        self.pay_leg_frequency
    }

    /// Returns the receive (or floating, or foreign) leg frequency.
    pub fn receive_leg_frequency(&self) -> (r: Option<Frequency>)
        ensures
            r == self@.receive_leg_frequency,
    {
        self.receive_leg_frequency
    }

    /// Sets the option strategy.
    pub fn with_strategy(self, s: OptionStrategy) -> (r: Self)
        ensures
            r@ == (DetailsView { strategy: Some(s), ..self@ }),
    {
        QuoteDetails { strategy: Some(s), ..self }
    }

    /// Sets the volatility type.
    pub fn with_vol_type(self, v: VolatilityType) -> (r: Self)
        ensures
            r@ == (DetailsView { vol_type: Some(v), ..self@ }),
    {
        QuoteDetails { vol_type: Some(v), ..self }
    }

    /// Sets the pay currency.
    pub fn with_pay_currency(self, c: Currency) -> (r: Self)
        ensures
            r@ == (DetailsView { pay_currency: Some(c), ..self@ }),
    {
        QuoteDetails { pay_currency: Some(c), ..self }
    }

    /// Sets the receive currency.
    pub fn with_receive_currency(self, c: Currency) -> (r: Self)
        ensures
            r@ == (DetailsView { receive_currency: Some(c), ..self@ }),
    {
        QuoteDetails { receive_currency: Some(c), ..self }
    }

    /// Sets the strike.
    pub fn with_strike(self, s: Strike) -> (r: Self)
        ensures
            r@ == (DetailsView { strike: Some(strike_view(s)), ..self@ }),
    {
        QuoteDetails { strike: Some(s), ..self }
    }

    /// Sets the maturity date.
    pub fn with_maturity(self, d: Date) -> (r: Self)
        ensures
            r@ == (DetailsView { maturity: Some(d), ..self@ }),
    {
        QuoteDetails { maturity: Some(d), ..self }
    }

    /// Sets the tenor.
    pub fn with_tenor(self, p: Period) -> (r: Self)
        ensures
            r@ == (DetailsView { tenor: Some(p), ..self@ }),
    {
        QuoteDetails { tenor: Some(p), ..self }
    }

    /// Sets the primary currency.
    pub fn with_currency(self, c: Currency) -> (r: Self)
        ensures
            r@ == (DetailsView { currency: Some(c), ..self@ }),
    {
        QuoteDetails { currency: Some(c), ..self }
    }

    /// Sets the secondary market index.
    pub fn with_secondary_market_index(self, idx: MarketIndex) -> (r: Self)
        ensures
            r@ == (DetailsView { secondary_market_index: Some(index_key(idx)), ..self@ }),
    {
        QuoteDetails { secondary_market_index: Some(idx), ..self }
    }

    /// Sets the option expiry tenor.
    pub fn with_option_expiry(self, p: Period) -> (r: Self)
        ensures
            r@ == (DetailsView { option_expiry: Some(p), ..self@ }),
    {
        QuoteDetails { option_expiry: Some(p), ..self }
    }

    /// Sets the futures contract code.
    pub fn with_contract_code(self, code: String) -> (r: Self)
        ensures
            r@ == (DetailsView { contract_code: Some(code@), ..self@ }),
    {
        QuoteDetails { contract_code: Some(code), ..self }
    }

    /// Sets the tenor of the underlying index.
    pub fn with_index_tenor(self, p: Period) -> (r: Self)
        ensures
            r@ == (DetailsView { index_tenor: Some(p), ..self@ }),
    {
        QuoteDetails { index_tenor: Some(p), ..self }
    }

    /// Sets the pay leg frequency.
    pub fn with_pay_leg_frequency(self, f: Frequency) -> (r: Self)
        ensures
            r@ == (DetailsView { pay_leg_frequency: Some(f), ..self@ }),
    {
        QuoteDetails { pay_leg_frequency: Some(f), ..self }
    }

    /// Sets the receive leg frequency.
    pub fn with_receive_leg_frequency(self, f: Frequency) -> (r: Self)
        ensures
            r@ == (DetailsView { receive_leg_frequency: Some(f), ..self@ }),
    {
        QuoteDetails { receive_leg_frequency: Some(f), ..self }
    }

    /// Sets the primary market index.
    pub fn with_market_index(self, idx: MarketIndex) -> (r: Self)
        ensures
            r@ == (DetailsView { market_index: Some(index_key(idx)), ..self@ }),
    {
        QuoteDetails { market_index: Some(idx), ..self }
    }
}

fn invalid(id: &str) -> (e: QSError)
    ensures
        e matches QSError::InvalidValue(t) && t@ == id@,
{
    QSError::InvalidValue(id.to_owned())
}

impl QuoteDetails {
    /// Reads one or two optional frequencies from segment `start` on
    /// (see [`frequencies_at`]).
    fn try_parse_frequencies(parts: &[&str], start: usize) -> (r: (
        Option<Frequency>,
        Option<Frequency>,
        usize,
    ))
        requires
            start <= parts@.len(),
        ensures
            (r.0, r.1, r.2 as int) == frequencies_at(strs_view(parts@), start as int),
    {
        let ghost p = strs_view(parts@);
        if start < parts.len() {
            assert(p[start as int] == parts@[start as int]@);
            if let Ok(pay) = Frequency::parse(parts[start]) {
                if start + 1 < parts.len() {
                    assert(p[start + 1] == parts@[start + 1]@);
                    if let Ok(recv) = Frequency::parse(parts[start + 1]) {
                        return (Some(pay), Some(recv), start + 2);
                    }
                }
                return (Some(pay), None, start + 1);
            }
        }
        (None, None, start)
    }

    /// Reads the strike at segment `at` and its value when the next segment is
    /// a number (see [`strike_at`]).
    fn read_strike(id: &str, parts: &[&str], at: usize) -> (r: Result<(Strike, usize), QSError>)
        requires
            at < parts@.len(),
        ensures
            r is Ok <==> strike_kind_of_name(strs_view(parts@)[at as int]) is Some,
            r matches Ok((k, next)) ==> (strike_view(k), next as int) == strike_at(
                strs_view(parts@),
                at as int,
            ),
            r matches Err(e) ==> (e matches QSError::InvalidValue(t) && t@ == id@),
    {
        let ghost p = strs_view(parts@);
        assert(p[at as int] == parts@[at as int]@);
        let kind = match StrikeKind::parse(parts[at]) {
            Ok(k) => k,
            Err(_) => return Err(invalid(id)),
        };
        if at + 1 < parts.len() && number_text(parts[at + 1]) {
            assert(p[at + 1] == parts@[at + 1]@);
            let value = if kind == StrikeKind::Atm {
                None
            } else {
                Some(parts[at + 1].to_owned())
            };
            Ok((Strike { kind, value }, at + 2))
        } else {
            proof {
                if at + 1 < parts@.len() {
                    assert(p[at + 1] == parts@[at + 1]@);
                }
            }
            Ok((Strike { kind, value: None }, at + 1))
        }
    }

    /// Reads the volatility type at segment `at`.
    fn read_vol_type(id: &str, parts: &[&str], at: usize) -> (r: Result<VolatilityType, QSError>)
        ensures
            r is Ok <==> (at < parts@.len() && vol_type_of_name(strs_view(parts@)[at as int]) is Some),
            r matches Ok(v) ==> vol_type_of_name(strs_view(parts@)[at as int]) == Some(v),
            r matches Err(e) ==> (e matches QSError::InvalidValue(t) && t@ == id@),
    {
        if at >= parts.len() {
            return Err(invalid(id));
        }
        assert(strs_view(parts@)[at as int] == parts@[at as int]@);
        match VolatilityType::parse(parts[at]) {
            Ok(v) => Ok(v),
            Err(_) => Err(invalid(id)),
        }
    }

    /// Reads the currency code at segment `at`.
    fn read_currency(id: &str, parts: &[&str], at: usize) -> (r: Result<Currency, QSError>)
        requires
            at < parts@.len(),
        ensures
            r is Ok <==> code_currency(strs_view(parts@)[at as int]) is Some,
            r matches Ok(c) ==> code_currency(strs_view(parts@)[at as int]) == Some(c),
            r matches Err(e) ==> (e matches QSError::InvalidValue(t) && t@ == id@),
    {
        assert(strs_view(parts@)[at as int] == parts@[at as int]@);
        match Currency::from_code(parts[at]) {
            Ok(c) => Ok(c),
            Err(_) => Err(invalid(id)),
        }
    }

    /// Reads the market index at segment `at`.
    fn read_index(id: &str, parts: &[&str], at: usize) -> (r: Result<MarketIndex, QSError>)
        requires
            at < parts@.len(),
        ensures
            r is Ok <==> index_of_name(strs_view(parts@)[at as int]) is Some,
            r matches Ok(m) ==> index_of_name(strs_view(parts@)[at as int]) == Some(index_key(m)),
            r matches Err(e) ==> (e matches QSError::InvalidValue(t) && t@ == id@),
    {
        assert(strs_view(parts@)[at as int] == parts@[at as int]@);
        match MarketIndex::parse(parts[at]) {
            Ok(m) => Ok(m),
            Err(_) => Err(invalid(id)),
        }
    }

    /// Reads the period at segment `at`.
    fn read_period(id: &str, parts: &[&str], at: usize) -> (r: Result<Period, QSError>)
        requires
            at < parts@.len(),
        ensures
            r is Ok <==> period_of_text(strs_view(parts@)[at as int]) is Some,
            r matches Ok(t) ==> period_of_text(strs_view(parts@)[at as int]) == Some(t),
            r matches Err(e) ==> (e matches QSError::InvalidValue(t) && t@ == id@),
    {
        assert(strs_view(parts@)[at as int] == parts@[at as int]@);
        match Period::parse(parts[at]) {
            Ok(t) => Ok(t),
            Err(_) => Err(invalid(id)),
        }
    }

    /// Reads the FX currency pair at segment `at`.
    fn read_fx_pair(id: &str, parts: &[&str], at: usize) -> (r: Result<(Currency, Currency), QSError>)
        requires
            at < parts@.len(),
        ensures
            r is Ok <==> fx_pair_of_text(strs_view(parts@)[at as int]) is Some,
            r matches Ok(c) ==> fx_pair_of_text(strs_view(parts@)[at as int]) == Some(c),
            r matches Err(e) ==> (e matches QSError::InvalidValue(t) && t@ == id@),
    {
        assert(strs_view(parts@)[at as int] == parts@[at as int]@);
        match parse_fx_pair(parts[at]) {
            Ok(c) => Ok(c),
            Err(_) => Err(invalid(id)),
        }
    }

    /// `OIS_CCY_Index_Tenor[_PayFreq[_RecvFreq]]`, e.g. `OIS_USD_SOFR_1Y`.
    pub fn parse_ois(id: &str, parts: &[&str]) -> (r: Result<Self, QSError>)
        ensures
            r is Ok <==> ois_details(id@, strs_view(parts@)) is Some,
            r matches Ok(d) ==> ois_details(id@, strs_view(parts@)) == Some(d@),
            r matches Err(e) ==> (e matches QSError::InvalidValue(t) && t@ == id@),
    {
        if parts.len() < 4 {
            return Err(invalid(id));
        }
        let currency = Self::read_currency(id, parts, 1)?;
        let index = Self::read_index(id, parts, 2)?;
        let tenor = Self::read_period(id, parts, 3)?;
        let (pay_freq, recv_freq, _next) = Self::try_parse_frequencies(parts, 4);
        let mut det = Self::new(id.to_owned(), QuoteInstrument::OIS).with_market_index(
            index,
        ).with_currency(currency).with_tenor(tenor);
        if let Some(f) = pay_freq {
            det = det.with_pay_leg_frequency(f);
        }
        if let Some(f) = recv_freq {
            det = det.with_receive_leg_frequency(f);
        }
        Ok(det)
    }

    /// `FixedRateDeposit_CCY_Index_Tenor`, e.g. `FixedRateDeposit_USD_SOFR_1Y`.
    pub fn parse_fixed_rate_deposit(id: &str, parts: &[&str]) -> (r: Result<Self, QSError>)
        ensures
            r is Ok <==> deposit_details(id@, strs_view(parts@)) is Some,
            r matches Ok(d) ==> deposit_details(id@, strs_view(parts@)) == Some(d@),
            r matches Err(e) ==> (e matches QSError::InvalidValue(t) && t@ == id@),
    {
        if parts.len() < 4 {
            return Err(invalid(id));
        }
        let currency = Self::read_currency(id, parts, 1)?;
        let index = Self::read_index(id, parts, 2)?;
        let tenor = Self::read_period(id, parts, 3)?;
        Ok(
            Self::new(id.to_owned(), QuoteInstrument::FixedRateDeposit).with_market_index(
                index,
            ).with_currency(currency).with_tenor(tenor),
        )
    }

    /// `Cds_Entity_CCY_Tenor`, e.g. `Cds_ACME_USD_5Y`; the quote level is the
    /// par spread.
    pub fn parse_cds(id: &str, parts: &[&str]) -> (r: Result<Self, QSError>)
        ensures
            r is Ok <==> cds_details(id@, strs_view(parts@)) is Some,
            r matches Ok(d) ==> cds_details(id@, strs_view(parts@)) == Some(d@),
            r matches Err(e) ==> (e matches QSError::InvalidValue(t) && t@ == id@),
    {
        if parts.len() < 4 {
            return Err(invalid(id));
        }
        assert(strs_view(parts@)[1] == parts@[1]@);
        let entity = parts[1].to_owned();
        let currency = Self::read_currency(id, parts, 2)?;
        let tenor = Self::read_period(id, parts, 3)?;
        Ok(
            Self::new(id.to_owned(), QuoteInstrument::Cds).with_market_index(
                MarketIndex::Credit(entity),
            ).with_currency(currency).with_tenor(tenor),
        )
    }

    /// `BasisSwap_CCY_PayIndex_RecvIndex_Tenor[_PayFreq[_RecvFreq]]`, e.g.
    /// `BasisSwap_USD_SOFR_TermSOFR3m_1Y`.
    pub fn parse_basis_swap(id: &str, parts: &[&str]) -> (r: Result<Self, QSError>)
        ensures
            r is Ok <==> basis_swap_details(id@, strs_view(parts@)) is Some,
            r matches Ok(d) ==> basis_swap_details(id@, strs_view(parts@)) == Some(d@),
            r matches Err(e) ==> (e matches QSError::InvalidValue(t) && t@ == id@),
    {
        if parts.len() < 5 {
            return Err(invalid(id));
        }
        let currency = Self::read_currency(id, parts, 1)?;
        let pay_index = Self::read_index(id, parts, 2)?;
        let recv_index = Self::read_index(id, parts, 3)?;
        let tenor = Self::read_period(id, parts, 4)?;
        let (pay_freq, recv_freq, _next) = Self::try_parse_frequencies(parts, 5);
        let mut det = Self::new(id.to_owned(), QuoteInstrument::BasisSwap).with_market_index(
            pay_index,
        ).with_currency(currency).with_secondary_market_index(recv_index).with_tenor(tenor);
        if let Some(f) = pay_freq {
            det = det.with_pay_leg_frequency(f);
        }
        if let Some(f) = recv_freq {
            det = det.with_receive_leg_frequency(f);
        }
        Ok(det)
    }

    /// `FixFloatCrossCurrencySwap_DomCCY_FloatIndex_ForCCY_Tenor[_DomFreq[_ForFreq]]`,
    /// e.g. `FixFloatCrossCurrencySwap_USD_ICP_CLP_1Y`.
    pub fn parse_fix_float_cross_currency_swap(id: &str, parts: &[&str]) -> (r: Result<Self, QSError>)
        ensures
            r is Ok <==> fix_float_xccy_details(id@, strs_view(parts@)) is Some,
            r matches Ok(d) ==> fix_float_xccy_details(id@, strs_view(parts@)) == Some(d@),
            r matches Err(e) ==> (e matches QSError::InvalidValue(t) && t@ == id@),
    {
        if parts.len() < 5 {
            return Err(invalid(id));
        }
        let domestic_currency = Self::read_currency(id, parts, 1)?;
        let floating_index = Self::read_index(id, parts, 2)?;
        let foreign_currency = Self::read_currency(id, parts, 3)?;
        let tenor = Self::read_period(id, parts, 4)?;
        let (dom_freq, for_freq, _next) = Self::try_parse_frequencies(parts, 5);
        let mut det = Self::new(
            id.to_owned(),
            QuoteInstrument::FixFloatCrossCurrencySwap,
        ).with_market_index(floating_index).with_currency(domestic_currency).with_pay_currency(
            domestic_currency,
        ).with_receive_currency(foreign_currency).with_tenor(tenor);
        if let Some(f) = dom_freq {
            det = det.with_pay_leg_frequency(f);
        }
        if let Some(f) = for_freq {
            det = det.with_receive_leg_frequency(f);
        }
        Ok(det)
    }

    /// `FloatFloatCrossCurrencySwap_DomCCY_DomIndex_ForIndex_ForCCY_Tenor[_DomFreq[_ForFreq]]`,
    /// e.g. `FloatFloatCrossCurrencySwap_CLP_ICP_SOFR_USD_1Y`.
    pub fn parse_float_float_cross_currency_swap(id: &str, parts: &[&str]) -> (r: Result<Self, QSError>)
        ensures
            r is Ok <==> float_float_xccy_details(id@, strs_view(parts@)) is Some,
            r matches Ok(d) ==> float_float_xccy_details(id@, strs_view(parts@)) == Some(d@),
            r matches Err(e) ==> (e matches QSError::InvalidValue(t) && t@ == id@),
    {
        if parts.len() < 6 {
            return Err(invalid(id));
        }
        let domestic_currency = Self::read_currency(id, parts, 1)?;
        let dom_index = Self::read_index(id, parts, 2)?;
        let for_index = Self::read_index(id, parts, 3)?;
        let foreign_currency = Self::read_currency(id, parts, 4)?;
        let tenor = Self::read_period(id, parts, 5)?;
        let (dom_freq, for_freq, _next) = Self::try_parse_frequencies(parts, 6);
        let mut det = Self::new(
            id.to_owned(),
            QuoteInstrument::FloatFloatCrossCurrencySwap,
        ).with_market_index(dom_index).with_currency(domestic_currency).with_pay_currency(
            domestic_currency,
        ).with_receive_currency(foreign_currency).with_secondary_market_index(for_index).with_tenor(
            tenor,
        );
        if let Some(f) = dom_freq {
            det = det.with_pay_leg_frequency(f);
        }
        if let Some(f) = for_freq {
            det = det.with_receive_leg_frequency(f);
        }
        Ok(det)
    }

    /// `CapFloor_CCY_Index_Tenor[_Freq]_Strike[_StrikeValue]_VolType`, e.g.
    /// `CapFloor_USD_SOFR_1Y_Quarterly_Absolute_0.03_Black`.
    pub fn parse_cap_floor(id: &str, parts: &[&str]) -> (r: Result<Self, QSError>)
        ensures
            r is Ok <==> cap_floor_details(id@, strs_view(parts@)) is Some,
            r matches Ok(d) ==> cap_floor_details(id@, strs_view(parts@)) == Some(d@),
            r matches Err(e) ==> (e matches QSError::InvalidValue(t) && t@ == id@),
    {
        if parts.len() < 6 {
            return Err(invalid(id));
        }
        let currency = Self::read_currency(id, parts, 1)?;
        let index = Self::read_index(id, parts, 2)?;
        let tenor = Self::read_period(id, parts, 3)?;
        assert(strs_view(parts@)[4] == parts@[4]@);
        let (freq, next) = match Frequency::parse(parts[4]) {
            Ok(f) => (Some(f), 5),
            Err(_) => (None, 4),
        };
        let (strike, vol_idx) = Self::read_strike(id, parts, next)?;
        let vol_type = Self::read_vol_type(id, parts, vol_idx)?;
        let mut det = Self::new(id.to_owned(), QuoteInstrument::CapFloor).with_market_index(
            index,
        ).with_currency(currency).with_tenor(tenor).with_strike(strike).with_vol_type(vol_type);
        if let Some(f) = freq {
            det = det.with_pay_leg_frequency(f);
        }
        Ok(det)
    }

    /// `CapletFloorlet_CCY_Index_IdxTenor_Expiry_Strike[_StrikeValue]_Strategy_VolType`,
    /// e.g. `CapletFloorlet_USD_TermSOFR3m_3M_3M_Absolute_0.010_Straddle_Black`.
    pub fn parse_caplet_floorlet(id: &str, parts: &[&str]) -> (r: Result<Self, QSError>)
        ensures
            r is Ok <==> caplet_floorlet_details(id@, strs_view(parts@)) is Some,
            r matches Ok(d) ==> caplet_floorlet_details(id@, strs_view(parts@)) == Some(d@),
            r matches Err(e) ==> (e matches QSError::InvalidValue(t) && t@ == id@),
    {
        let ghost p = strs_view(parts@);
        if parts.len() < 8 {
            return Err(invalid(id));
        }
        let currency = Self::read_currency(id, parts, 1)?;
        let index = Self::read_index(id, parts, 2)?;
        let index_tenor = Self::read_period(id, parts, 3)?;
        let option_expiry = Self::read_period(id, parts, 4)?;
        assert(p[5] == parts@[5]@);
        assert(p[6] == parts@[6]@);
        let kind = match StrikeKind::parse(parts[5]) {
            Ok(k) => k,
            Err(_) => return Err(invalid(id)),
        };
        let (strike, next) = if number_text(parts[6]) {
            let value = if kind == StrikeKind::Atm {
                None
            } else {
                Some(parts[6].to_owned())
            };
            (Strike { kind, value }, 7)
        } else {
            (Strike { kind, value: None }, 6)
        };
        assert(p[next as int] == parts@[next as int]@);
        let strategy = match OptionStrategy::parse(parts[next]) {
            Ok(o) => o,
            Err(_) => return Err(invalid(id)),
        };
        let vol_type = Self::read_vol_type(id, parts, next + 1)?;
        Ok(
            Self::new(id.to_owned(), QuoteInstrument::CapletFloorlet).with_market_index(
                index,
            ).with_currency(currency).with_index_tenor(index_tenor).with_option_expiry(
                option_expiry,
            ).with_strike(strike).with_strategy(strategy).with_vol_type(vol_type),
        )
    }

    /// `Instrument_CCY_Index_ContractCode` identifiers of futures and
    /// convexity adjustments.
    fn parse_contract(id: &str, parts: &[&str], instrument: QuoteInstrument) -> (r: Result<Self, QSError>)
        ensures
            r is Ok <==> contract_details(id@, strs_view(parts@), instrument) is Some,
            r matches Ok(d) ==> contract_details(id@, strs_view(parts@), instrument) == Some(d@),
            r matches Err(e) ==> (e matches QSError::InvalidValue(t) && t@ == id@),
    {
        if parts.len() < 4 {
            return Err(invalid(id));
        }
        let currency = Self::read_currency(id, parts, 1)?;
        let index = Self::read_index(id, parts, 2)?;
        assert(strs_view(parts@)[3] == parts@[3]@);
        let code = parts[3].to_owned();
        Ok(
            Self::new(id.to_owned(), instrument).with_market_index(index).with_currency(
                currency,
            ).with_contract_code(code),
        )
    }

    /// `Future_CCY_Index_IMMCode`, e.g. `Future_USD_SOFR_H6`.
    pub fn parse_future(id: &str, parts: &[&str]) -> (r: Result<Self, QSError>)
        ensures
            r is Ok <==> contract_details(id@, strs_view(parts@), QuoteInstrument::Future) is Some,
            r matches Ok(d) ==> contract_details(id@, strs_view(parts@), QuoteInstrument::Future) == Some(d@),
            r matches Err(e) ==> (e matches QSError::InvalidValue(t) && t@ == id@),
    {
        Self::parse_contract(id, parts, QuoteInstrument::Future)
    }

    /// `ConvexityAdjustment_CCY_Index_IMMCode`, e.g. `ConvexityAdjustment_USD_SOFR_H6`.
    pub fn parse_convexity_adjustment(id: &str, parts: &[&str]) -> (r: Result<Self, QSError>)
        ensures
            r is Ok <==> contract_details(id@, strs_view(parts@), QuoteInstrument::ConvexityAdjustment) is Some,
            r matches Ok(d) ==> contract_details(id@, strs_view(parts@), QuoteInstrument::ConvexityAdjustment) == Some(d@),
            r matches Err(e) ==> (e matches QSError::InvalidValue(t) && t@ == id@),
    {
        Self::parse_contract(id, parts, QuoteInstrument::ConvexityAdjustment)
    }

    /// `Swaption_CCY_Index_Expiry_SwapTenor[_PayFreq[_RecvFreq]]_Strike[_StrikeValue]_VolType`,
    /// e.g. `Swaption_USD_SOFR_3M_2Y_Absolute_Black`.
    pub fn parse_swaption(id: &str, parts: &[&str]) -> (r: Result<Self, QSError>)
        ensures
            r is Ok <==> swaption_details(id@, strs_view(parts@)) is Some,
            r matches Ok(d) ==> swaption_details(id@, strs_view(parts@)) == Some(d@),
            r matches Err(e) ==> (e matches QSError::InvalidValue(t) && t@ == id@),
    {
        if parts.len() < 7 {
            return Err(invalid(id));
        }
        let currency = Self::read_currency(id, parts, 1)?;
        let index = Self::read_index(id, parts, 2)?;
        let option_expiry = Self::read_period(id, parts, 3)?;
        let swap_tenor = Self::read_period(id, parts, 4)?;
        let (pay_freq, recv_freq, next) = Self::try_parse_frequencies(parts, 5);
        if next >= parts.len() {
            return Err(invalid(id));
        }
        let (strike, vol_idx) = Self::read_strike(id, parts, next)?;
        let vol_type = Self::read_vol_type(id, parts, vol_idx)?;
        let mut det = Self::new(id.to_owned(), QuoteInstrument::EuropeanSwaption).with_market_index(
            index,
        ).with_currency(currency).with_option_expiry(option_expiry).with_tenor(
            swap_tenor,
        ).with_strike(strike).with_vol_type(vol_type);
        if let Some(f) = pay_freq {
            det = det.with_pay_leg_frequency(f);
        }
        if let Some(f) = recv_freq {
            det = det.with_receive_leg_frequency(f);
        }
        Ok(det)
    }

    /// `Instrument_CCYPAIR_Tenor` identifiers of FX forwards.
    fn parse_fx_forward(id: &str, parts: &[&str], instrument: QuoteInstrument) -> (r: Result<Self, QSError>)
        ensures
            r is Ok <==> fx_forward_details(id@, strs_view(parts@), instrument) is Some,
            r matches Ok(d) ==> fx_forward_details(id@, strs_view(parts@), instrument) == Some(d@),
            r matches Err(e) ==> (e matches QSError::InvalidValue(t) && t@ == id@),
    {
        if parts.len() < 3 {
            return Err(invalid(id));
        }
        let (base, quote_ccy) = Self::read_fx_pair(id, parts, 1)?;
        let tenor = Self::read_period(id, parts, 2)?;
        Ok(
            Self::new(id.to_owned(), instrument).with_pay_currency(base).with_receive_currency(
                quote_ccy,
            ).with_tenor(tenor),
        )
    }

    /// `FxOutrightForward_CCYPAIR_Tenor`, e.g. `FxOutrightForward_EURUSD_1M`.
    pub fn parse_outright_forward(id: &str, parts: &[&str]) -> (r: Result<Self, QSError>)
        ensures
            r is Ok <==> fx_forward_details(id@, strs_view(parts@), QuoteInstrument::FxOutrightForward) is Some,
            r matches Ok(d) ==> fx_forward_details(id@, strs_view(parts@), QuoteInstrument::FxOutrightForward) == Some(d@),
            r matches Err(e) ==> (e matches QSError::InvalidValue(t) && t@ == id@),
    {
        Self::parse_fx_forward(id, parts, QuoteInstrument::FxOutrightForward)
    }

    /// `FxForwardPoints_CCYPAIR_Tenor`, e.g. `FxForwardPoints_EURUSD_1M`.
    pub fn parse_forward_points(id: &str, parts: &[&str]) -> (r: Result<Self, QSError>)
        ensures
            r is Ok <==> fx_forward_details(id@, strs_view(parts@), QuoteInstrument::FxForwardPoints) is Some,
            r matches Ok(d) ==> fx_forward_details(id@, strs_view(parts@), QuoteInstrument::FxForwardPoints) == Some(d@),
            r matches Err(e) ==> (e matches QSError::InvalidValue(t) && t@ == id@),
    {
        Self::parse_fx_forward(id, parts, QuoteInstrument::FxForwardPoints)
    }

    /// `Instrument_CCY_Index_Expiry_Strike` identifiers of equity options.
    fn parse_equity_option(id: &str, parts: &[&str], instrument: QuoteInstrument) -> (r: Result<Self, QSError>)
        ensures
            r is Ok <==> equity_option_details(id@, strs_view(parts@), instrument) is Some,
            r matches Ok(d) ==> equity_option_details(id@, strs_view(parts@), instrument) == Some(d@),
            r matches Err(e) ==> (e matches QSError::InvalidValue(t) && t@ == id@),
    {
        if parts.len() < 5 {
            return Err(invalid(id));
        }
        let currency = Self::read_currency(id, parts, 1)?;
        let index = Self::read_index(id, parts, 2)?;
        let tenor = Self::read_period(id, parts, 3)?;
        assert(strs_view(parts@)[4] == parts@[4]@);
        if !number_text(parts[4]) {
            return Err(invalid(id));
        }
        let strike = Strike { kind: StrikeKind::Absolute, value: Some(parts[4].to_owned()) };
        Ok(
            Self::new(id.to_owned(), instrument).with_market_index(index).with_currency(
                currency,
            ).with_tenor(tenor).with_strike(strike),
        )
    }

    /// `EquityCall_CCY_Index_Expiry_Strike`, e.g. `EquityCall_USD_SPX_1Y_5000`.
    pub fn parse_equity_call(id: &str, parts: &[&str]) -> (r: Result<Self, QSError>)
        ensures
            r is Ok <==> equity_option_details(id@, strs_view(parts@), QuoteInstrument::EquityCall) is Some,
            r matches Ok(d) ==> equity_option_details(id@, strs_view(parts@), QuoteInstrument::EquityCall) == Some(d@),
            r matches Err(e) ==> (e matches QSError::InvalidValue(t) && t@ == id@),
    {
        Self::parse_equity_option(id, parts, QuoteInstrument::EquityCall)
    }

    /// `EquityPut_CCY_Index_Expiry_Strike`, e.g. `EquityPut_USD_SPX_1Y_5000`.
    pub fn parse_equity_put(id: &str, parts: &[&str]) -> (r: Result<Self, QSError>)
        ensures
            r is Ok <==> equity_option_details(id@, strs_view(parts@), QuoteInstrument::EquityPut) is Some,
            r matches Ok(d) ==> equity_option_details(id@, strs_view(parts@), QuoteInstrument::EquityPut) == Some(d@),
            r matches Err(e) ==> (e matches QSError::InvalidValue(t) && t@ == id@),
    {
        Self::parse_equity_option(id, parts, QuoteInstrument::EquityPut)
    }

    /// `Instrument_CCYPAIR_Expiry_Strike` identifiers of FX options.
    fn parse_fx_option(id: &str, parts: &[&str], instrument: QuoteInstrument) -> (r: Result<Self, QSError>)
        ensures
            r is Ok <==> fx_option_details(id@, strs_view(parts@), instrument) is Some,
            r matches Ok(d) ==> fx_option_details(id@, strs_view(parts@), instrument) == Some(d@),
            r matches Err(e) ==> (e matches QSError::InvalidValue(t) && t@ == id@),
    {
        if parts.len() < 4 {
            return Err(invalid(id));
        }
        let (base, quote_ccy) = Self::read_fx_pair(id, parts, 1)?;
        let tenor = Self::read_period(id, parts, 2)?;
        assert(strs_view(parts@)[3] == parts@[3]@);
        if !number_text(parts[3]) {
            return Err(invalid(id));
        }
        let strike = Strike { kind: StrikeKind::Absolute, value: Some(parts[3].to_owned()) };
        Ok(
            Self::new(id.to_owned(), instrument).with_pay_currency(base).with_receive_currency(
                quote_ccy,
            ).with_tenor(tenor).with_strike(strike),
        )
    }

    /// `FxCall_CCYPAIR_Expiry_Strike`, e.g. `FxCall_EURUSD_1Y_1.10`.
    pub fn parse_fx_call(id: &str, parts: &[&str]) -> (r: Result<Self, QSError>)
        ensures
            r is Ok <==> fx_option_details(id@, strs_view(parts@), QuoteInstrument::FxCall) is Some,
            r matches Ok(d) ==> fx_option_details(id@, strs_view(parts@), QuoteInstrument::FxCall) == Some(d@),
            r matches Err(e) ==> (e matches QSError::InvalidValue(t) && t@ == id@),
    {
        Self::parse_fx_option(id, parts, QuoteInstrument::FxCall)
    }

    /// `FxPut_CCYPAIR_Expiry_Strike`, e.g. `FxPut_EURUSD_1Y_1.10`.
    pub fn parse_fx_put(id: &str, parts: &[&str]) -> (r: Result<Self, QSError>)
        ensures
            r is Ok <==> fx_option_details(id@, strs_view(parts@), QuoteInstrument::FxPut) is Some,
            r matches Ok(d) ==> fx_option_details(id@, strs_view(parts@), QuoteInstrument::FxPut) == Some(d@),
            r matches Err(e) ==> (e matches QSError::InvalidValue(t) && t@ == id@),
    {
        Self::parse_fx_option(id, parts, QuoteInstrument::FxPut)
    }

    /// A copy of the details.
    pub fn duplicate(&self) -> (r: Self)
        ensures
            r == *self,
    {
        QuoteDetails {
            identifier: self.identifier.clone(),
            instrument: self.instrument,
            market_index: match &self.market_index {
                Some(m) => Some(m.duplicate()),
                None => None,
            },
            strategy: self.strategy,
            vol_type: self.vol_type,
            pay_currency: self.pay_currency,
            receive_currency: self.receive_currency,
            strike: match &self.strike {
                Some(k) => Some(k.duplicate()),
                None => None,
            },
            maturity: self.maturity,
            tenor: self.tenor,
            currency: self.currency,
            secondary_market_index: match &self.secondary_market_index {
                Some(m) => Some(m.duplicate()),
                None => None,
            },
            option_expiry: self.option_expiry,
            contract_code: match &self.contract_code {
                Some(c) => Some(c.clone()),
                None => None,
            },
            index_tenor: self.index_tenor,
            pay_leg_frequency: self.pay_leg_frequency,
            receive_leg_frequency: self.receive_leg_frequency,
        }
    }

    /// Parses a quote identifier whose segments are separated by `separator`
    /// (see [`details_of_identifier`]). Every malformed identifier gives
    /// `InvalidValue` with the identifier.
    pub fn parse(s: &str, separator: char) -> (r: Result<Self, QSError>)
        ensures
            r is Ok <==> details_of_identifier(s@, separator) is Some,
            r matches Ok(d) ==> details_of_identifier(s@, separator) == Some(d@),
            r matches Err(e) ==> (e matches QSError::InvalidValue(t) && t@ == s@),
    {
        let parts = split_str(s, separator);
        if parts.len() < 3 {
            return Err(invalid(s));
        }
        let p = parts.as_slice();
        assert(strs_view(parts@)[0] == parts@[0]@);
        let instrument = match QuoteInstrument::from_name(parts[0]) {
            Ok(i) => i,
            Err(_) => return Err(invalid(s)),
        };
        match instrument {
            QuoteInstrument::OIS => Self::parse_ois(s, p),
            QuoteInstrument::FixedRateDeposit => Self::parse_fixed_rate_deposit(s, p),
            QuoteInstrument::BasisSwap => Self::parse_basis_swap(s, p),
            QuoteInstrument::FixFloatCrossCurrencySwap => Self::parse_fix_float_cross_currency_swap(s, p),
            QuoteInstrument::CapFloor => Self::parse_cap_floor(s, p),
            QuoteInstrument::CapletFloorlet => Self::parse_caplet_floorlet(s, p),
            QuoteInstrument::Future => Self::parse_future(s, p),
            QuoteInstrument::ConvexityAdjustment => Self::parse_convexity_adjustment(s, p),
            QuoteInstrument::EuropeanSwaption => Self::parse_swaption(s, p),
            QuoteInstrument::FxOutrightForward => Self::parse_outright_forward(s, p),
            QuoteInstrument::FloatFloatCrossCurrencySwap => Self::parse_float_float_cross_currency_swap(s, p),
            QuoteInstrument::FxForwardPoints => Self::parse_forward_points(s, p),
            QuoteInstrument::EquityCall => Self::parse_equity_call(s, p),
            QuoteInstrument::EquityPut => Self::parse_equity_put(s, p),
            QuoteInstrument::FxCall => Self::parse_fx_call(s, p),
            QuoteInstrument::FxPut => Self::parse_fx_put(s, p),
            QuoteInstrument::Cds => Self::parse_cds(s, p),
        }
    }
}

impl std::str::FromStr for QuoteDetails {
    type Err = QSError;

    /// Parses an underscore-separated quote identifier.
    fn from_str(s: &str) -> (r: Result<QuoteDetails, QSError>)
        ensures
            r is Ok <==> details_of_identifier(s@, '_') is Some,
            r matches Ok(d) ==> details_of_identifier(s@, '_') == Some(d@),
            r matches Err(e) ==> (e matches QSError::InvalidValue(t) && t@ == s@),
    {
        QuoteDetails::parse(s, '_')
    }
}

} // verus!
