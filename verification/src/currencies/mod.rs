//! Currencies and their ISO codes.
use vstd::prelude::*;

use crate::errors::QSError;
use crate::text::str_eq;

verus! {

/// ISO 4217 currencies handled by the library.
#[derive(Clone, Copy, Debug, PartialEq, Eq, Hash, Structural)]
pub enum Currency {
    USD,
    EUR,
    GBP,
    JPY,
    CHF,
    CAD,
    AUD,
    CNY,
    SEK,
    NOK,
    DKK,
    BRL,
    CLP,
    CLF,
    COP,
    MXN,
    PEN,
    ZAR,
}

/// The three-letter code of a currency.
pub open spec fn currency_code(c: Currency) -> Seq<char> {
    match c {
        Currency::USD => "USD"@,
        Currency::EUR => "EUR"@,
        Currency::GBP => "GBP"@,
        Currency::JPY => "JPY"@,
        Currency::CHF => "CHF"@,
        Currency::CAD => "CAD"@,
        Currency::AUD => "AUD"@,
        Currency::CNY => "CNY"@,
        Currency::SEK => "SEK"@,
        Currency::NOK => "NOK"@,
        Currency::DKK => "DKK"@,
        Currency::BRL => "BRL"@,
        Currency::CLP => "CLP"@,
        Currency::CLF => "CLF"@,
        Currency::COP => "COP"@,
        Currency::MXN => "MXN"@,
        Currency::PEN => "PEN"@,
        Currency::ZAR => "ZAR"@,
    }
}

/// Whether some currency has the code `s`.
pub open spec fn is_currency_code(s: Seq<char>) -> bool {
    exists|c: Currency| currency_code(c) == s
}

/// The currency whose code is `s`.
pub open spec fn code_currency(s: Seq<char>) -> Option<Currency> {
    if is_currency_code(s) {
        Some(choose|c: Currency| currency_code(c) == s)
    } else {
        None
    }
}

/// Distinct currencies have distinct codes.
pub proof fn lemma_currency_code_injective(a: Currency, b: Currency)
    ensures
        currency_code(a) == currency_code(b) ==> a == b,
{
    reveal_strlit("USD");
    reveal_strlit("EUR");
    reveal_strlit("GBP");
    reveal_strlit("JPY");
    reveal_strlit("CHF");
    reveal_strlit("CAD");
    reveal_strlit("AUD");
    reveal_strlit("CNY");
    reveal_strlit("SEK");
    reveal_strlit("NOK");
    reveal_strlit("DKK");
    reveal_strlit("BRL");
    reveal_strlit("CLP");
    reveal_strlit("CLF");
    reveal_strlit("COP");
    reveal_strlit("MXN");
    reveal_strlit("PEN");
    reveal_strlit("ZAR");
    if currency_code(a) == currency_code(b) {
        assert(currency_code(a)[0] == currency_code(b)[0]);
        assert(currency_code(a)[1] == currency_code(b)[1]);
        assert(currency_code(a)[2] == currency_code(b)[2]);
    }
}

/// A currency's code parses back to the currency.
pub proof fn lemma_code_round_trip(c: Currency)
    ensures
        code_currency(currency_code(c)) == Some(c),
{
    let w = choose|w: Currency| currency_code(w) == currency_code(c);
    lemma_currency_code_injective(w, c);
}

impl Currency {
    /// Parses a three-letter ISO code (case sensitive).
    pub fn from_code(s: &str) -> (r: Result<Currency, QSError>)
        ensures
            r matches Ok(c) ==> currency_code(c) == s@ && code_currency(s@) == Some(c),
            r is Err <==> !is_currency_code(s@),
            r matches Err(e) ==> (e matches QSError::InvalidValue(t) && t@ == s@),
    {
        let candidates: [Currency; 18] = [
            Currency::USD,
            Currency::EUR,
            Currency::GBP,
            Currency::JPY,
            Currency::CHF,
            Currency::CAD,
            Currency::AUD,
            Currency::CNY,
            Currency::SEK,
            Currency::NOK,
            Currency::DKK,
            Currency::BRL,
            Currency::CLP,
            Currency::CLF,
            Currency::COP,
            Currency::MXN,
            Currency::PEN,
            Currency::ZAR,
        ];
        let mut i: usize = 0;
        while i < 18
            invariant
                i <= 18,
                forall|j: int| 0 <= j < i ==> currency_code(#[trigger] candidates@[j]) != s@,
                candidates@ == seq![
                    Currency::USD,
                    Currency::EUR,
                    Currency::GBP,
                    Currency::JPY,
                    Currency::CHF,
                    Currency::CAD,
                    Currency::AUD,
                    Currency::CNY,
                    Currency::SEK,
                    Currency::NOK,
                    Currency::DKK,
                    Currency::BRL,
                    Currency::CLP,
                    Currency::CLF,
                    Currency::COP,
                    Currency::MXN,
                    Currency::PEN,
                    Currency::ZAR,
                ],
            decreases 18 - i,
        {
            let c = candidates[i];
            if str_eq(s, c.code()) {
                proof {
                    let w = choose|w: Currency| currency_code(w) == s@;
                    lemma_currency_code_injective(w, c);
                }
                return Ok(c);
            }
            i = i + 1;
        }
        proof {
            assert forall|c: Currency| currency_code(c) != s@ by {
                let k: int = match c {
                    Currency::USD => 0,
                    Currency::EUR => 1,
                    Currency::GBP => 2,
                    Currency::JPY => 3,
                    Currency::CHF => 4,
                    Currency::CAD => 5,
                    Currency::AUD => 6,
                    Currency::CNY => 7,
                    Currency::SEK => 8,
                    Currency::NOK => 9,
                    Currency::DKK => 10,
                    Currency::BRL => 11,
                    Currency::CLP => 12,
                    Currency::CLF => 13,
                    Currency::COP => 14,
                    Currency::MXN => 15,
                    Currency::PEN => 16,
                    Currency::ZAR => 17,
                };
                assert(candidates@[k] == c);
            }
        }
        Err(QSError::InvalidValue(s.to_owned()))
    }

    /// The three-letter ISO code.
    pub fn code(&self) -> (r: &'static str)
        ensures
            r@ == currency_code(*self),
    {
        match self {
            Currency::USD => "USD",
            Currency::EUR => "EUR",
            Currency::GBP => "GBP",
            Currency::JPY => "JPY",
            Currency::CHF => "CHF",
            Currency::CAD => "CAD",
            Currency::AUD => "AUD",
            Currency::CNY => "CNY",
            Currency::SEK => "SEK",
            Currency::NOK => "NOK",
            Currency::DKK => "DKK",
            Currency::BRL => "BRL",
            Currency::CLP => "CLP",
            Currency::CLF => "CLF",
            Currency::COP => "COP",
            Currency::MXN => "MXN",
            Currency::PEN => "PEN",
            Currency::ZAR => "ZAR",
        }
    }
}

impl std::str::FromStr for Currency {
    type Err = QSError;

    fn from_str(s: &str) -> (r: Result<Currency, QSError>)
        ensures
            r matches Ok(c) ==> currency_code(c) == s@ && code_currency(s@) == Some(c),
            r is Err <==> !is_currency_code(s@),
            r matches Err(e) ==> (e matches QSError::InvalidValue(t) && t@ == s@),
    {
        Currency::from_code(s)
    }
}

} // verus!
