//! Exchanges, assets and instruments, each named as its exchange names it.
//!
//! The types are generic in how a name is written: `String` in compiled code, the sequence of
//! its characters in contracts.

use crate::decimal::Decimal;
use vstd::prelude::*;

verus! {

/// An exchange.
#[derive(Debug, Clone, Copy, PartialEq, Eq, Hash, Structural)]
pub enum ExchangeId {
    Mock,
    BinanceSpot,
    /// Any other exchange, by a number of its own.
    Other(u32),
}

/// The side of an order or a trade.
#[derive(Debug, Clone, Copy, PartialEq, Eq, Hash, Structural)]
pub enum Side {
    Buy,
    Sell,
}

/// The two assets of an instrument: the one that is traded and the one it is priced in.
#[derive(Debug, PartialEq, Eq)]
pub struct Underlying<N> {
    pub base: N,
    pub quote: N,
}

impl View for Underlying<String> {
    type V = Underlying<Seq<char>>;

    open spec fn view(&self) -> Underlying<Seq<char>> {
        Underlying { base: self.base@, quote: self.quote@ }
    }
}

impl Clone for Underlying<String> {
    fn clone(&self) -> (result: Self)
        ensures
            result == *self,
    {
        Underlying { base: self.base.clone(), quote: self.quote.clone() }
    }
}

/// The trading rules of an instrument: which prices, quantities and order values are admitted.
#[derive(Debug, Clone, Copy, PartialEq, Eq)]
pub struct InstrumentSpec {
    pub price_min: Decimal,
    pub tick_size: Decimal,
    pub quantity_min: Decimal,
    pub quantity_increment: Decimal,
    pub notional_min: Decimal,
}

/// An instrument, with its trading rules where they are known.
#[derive(Debug, PartialEq, Eq)]
pub struct Instrument<N> {
    pub exchange: ExchangeId,
    pub name_exchange: N,
    pub underlying: Underlying<N>,
    pub spec: Option<InstrumentSpec>,
}

impl View for Instrument<String> {
    type V = Instrument<Seq<char>>;

    open spec fn view(&self) -> Instrument<Seq<char>> {
        Instrument {
            exchange: self.exchange,
            name_exchange: self.name_exchange@,
            underlying: self.underlying@,
            spec: self.spec,
        }
    }
}

impl Clone for Instrument<String> {
    fn clone(&self) -> (result: Self)
        ensures
            result == *self,
    {
        Instrument {
            exchange: self.exchange,
            name_exchange: self.name_exchange.clone(),
            underlying: self.underlying.clone(),
            spec: self.spec,
        }
    }
}

impl Instrument<String> {
    /// A spot instrument.
    pub fn spot(
        exchange: ExchangeId,
        name_exchange: String,
        underlying: Underlying<String>,
        spec: Option<InstrumentSpec>,
    ) -> (result: Self)
        ensures
            result@ == (Instrument {
                exchange,
                name_exchange: name_exchange@,
                underlying: underlying@,
                spec,
            }),
    {
        Instrument { exchange, name_exchange, underlying, spec }
    }
}

} // verus!
