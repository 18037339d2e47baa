//! Currencies accepted by the engine.

use vstd::prelude::*;

verus! {

/// The European currencies the engine settles in.
#[derive(Clone, Copy, Debug, PartialEq, Eq, Hash, Structural)]
pub enum Currency {
    /// Euro
    EUR,
    /// British Pound
    GBP,
    /// Swiss Franc
    CHF,
    /// Swedish Krona
    SEK,
    /// Norwegian Krone
    NOK,
    /// Danish Krone
    DKK,
    /// Polish Zloty
    PLN,
    /// Czech Koruna
    CZK,
    /// Hungarian Forint
    HUF,
    /// Romanian Leu
    RON,
    /// Bulgarian Lev
    BGN,
    /// Croatian Kuna
    HRK,
}

impl Currency {
    /// The display symbol of `self`.
    pub open spec fn spec_symbol(self) -> Seq<char> {
        match self {
            Currency::EUR => "\u{20ac}"@,
            Currency::GBP => "\u{a3}"@,
            Currency::CHF => "CHF"@,
            Currency::SEK => "kr"@,
            Currency::NOK => "kr"@,
            Currency::DKK => "kr"@,
            Currency::PLN => "z\u{142}"@,
            Currency::CZK => "K\u{10d}"@,
            Currency::HUF => "Ft"@,
            Currency::RON => "lei"@,
            Currency::BGN => "\u{43b}\u{432}"@,
            Currency::HRK => "kn"@,
        }
    }

    /// The symbol the currency is displayed with.
    pub fn symbol(&self) -> (r: &'static str)
        ensures
            r@ == self.spec_symbol(),
    {
        match self {
            Currency::EUR => "\u{20ac}",
            Currency::GBP => "\u{a3}",
            Currency::CHF => "CHF",
            Currency::SEK => "kr",
            Currency::NOK => "kr",
            Currency::DKK => "kr",
            Currency::PLN => "z\u{142}",
            Currency::CZK => "K\u{10d}",
            Currency::HUF => "Ft",
            Currency::RON => "lei",
            Currency::BGN => "\u{43b}\u{432}",
            Currency::HRK => "kn",
        }
    }

    /// The number of decimal places amounts in this currency carry:
    /// two everywhere but the Hungarian Forint, which has none.
    pub fn decimal_places(&self) -> (r: u8)
        ensures
            r == if self is HUF { 0u8 } else { 2u8 },
    {
        match self {
            Currency::HUF => 0,
            _ => 2,
        }
    }

    /// Whether the currency is the eurozone's own.
    pub fn is_eurozone(&self) -> (r: bool)
        ensures
            r == (*self is EUR),
    {
        matches!(self, Currency::EUR)
    }
}

} // verus!
