//! Market data on its way to the engine: what an event observes, and how late it is.

use crate::channel::ObservationKey;
use crate::instrument::{ExchangeId, Side};
use crate::decimal::Decimal;
use crate::time::{nanos_since_epoch, ordinary, Duration, Timestamp};
use std::collections::hash_map::DefaultHasher;
use std::hash::Hasher;
use vstd::bytes::{spec_u64_to_le_bytes, u64_to_le_bytes};
use vstd::prelude::*;
use vstd::std_specs::hash::DefaultHasherAdditionalSpecFns;

verus! {

/// A price and the amount at it.
#[derive(Debug, Clone, Copy, PartialEq, Eq)]
pub struct Level {
    pub price: Decimal,
    pub amount: Decimal,
}

/// A trade between any participants. A price or an amount that no decimal number stands for is
/// absent.
#[derive(Debug, PartialEq, Eq)]
pub struct PublicTrade {
    pub id: String,
    pub price: Option<Decimal>,
    pub amount: Option<Decimal>,
    pub side: Side,
}

/// The best bid and the best ask.
#[derive(Debug, Clone, Copy, PartialEq, Eq)]
pub struct OrderBookL1 {
    pub last_update_time: Timestamp,
    pub best_bid: Option<Level>,
    pub best_ask: Option<Level>,
}

/// The levels of both sides.
#[derive(Debug, PartialEq, Eq)]
pub struct OrderBook {
    pub sequence: u64,
    pub bids: Vec<Level>,
    pub asks: Vec<Level>,
}

/// A book, or what it has become.
#[derive(Debug, PartialEq, Eq)]
pub enum OrderBookEvent {
    Snapshot(OrderBook),
    Update(OrderBook),
}

/// The trades of a period.
#[derive(Debug, Clone, Copy, PartialEq, Eq)]
pub struct Candle {
    pub close_time: Timestamp,
}

/// A forced close of a position.
#[derive(Debug, Clone, Copy, PartialEq, Eq)]
pub struct Liquidation {
    pub side: Side,
    pub time: Timestamp,
}

/// A piece of market data.
#[derive(Debug, PartialEq, Eq)]
pub enum DataKind {
    Trade(PublicTrade),
    OrderBookL1(OrderBookL1),
    OrderBook(OrderBookEvent),
    Candle(Candle),
    Liquidation(Liquidation),
}

/// A piece of market data for an instrument, with the time of the exchange and of its receipt.
#[derive(Debug, PartialEq, Eq)]
pub struct MarketEvent<Kind> {
    pub time_exchange: Timestamp,
    pub time_received: Timestamp,
    pub exchange: ExchangeId,
    pub instrument: usize,
    pub kind: Kind,
}

/// What a stream of market data yields: an event, or the news that it reconnects.
#[derive(Debug, PartialEq, Eq)]
pub enum MarketStreamEvent<Kind> {
    Reconnecting(ExchangeId),
    Item(MarketEvent<Kind>),
}

/// Tells kinds of market data apart, so that each is conflated on its own.
pub trait ObservationKind {
    /// What [`ObservationKind::kind_tag`] returns.
    open spec fn tag(&self) -> u8 {
        arbitrary()
    }

    /// The number of the kind.
    fn kind_tag(&self) -> (result: u8)
        ensures
            result == self.tag(),
    ;
}

impl ObservationKind for DataKind {
    open spec fn tag(&self) -> u8 {
        match self {
            DataKind::Trade(_) => 0,
            DataKind::OrderBookL1(_) => 1,
            DataKind::OrderBook(_) => 2,
            DataKind::Candle(_) => 3,
            DataKind::Liquidation(_) => 4,
        }
    }

    fn kind_tag(&self) -> (result: u8) {
        match self {
            DataKind::Trade(_) => 0,
            DataKind::OrderBookL1(_) => 1,
            DataKind::OrderBook(_) => 2,
            DataKind::Candle(_) => 3,
            DataKind::Liquidation(_) => 4,
        }
    }
}

impl ObservationKind for PublicTrade {
    open spec fn tag(&self) -> u8 {
        0
    }

    fn kind_tag(&self) -> (result: u8) {
        0
    }
}

impl ObservationKind for OrderBookL1 {
    open spec fn tag(&self) -> u8 {
        1
    }

    fn kind_tag(&self) -> (result: u8) {
        1
    }
}

impl ObservationKind for OrderBookEvent {
    open spec fn tag(&self) -> u8 {
        2
    }

    fn kind_tag(&self) -> (result: u8) {
        2
    }
}

impl ObservationKind for Candle {
    open spec fn tag(&self) -> u8 {
        3
    }

    fn kind_tag(&self) -> (result: u8) {
        3
    }
}

impl ObservationKind for Liquidation {
    open spec fn tag(&self) -> u8 {
        4
    }

    fn kind_tag(&self) -> (result: u8) {
        4
    }
}

/// The hash of an instrument: that of its index as eight bytes, the lowest first.
pub open spec fn instrument_hash(instrument: usize) -> u64 {
    DefaultHasher::spec_finish(seq![spec_u64_to_le_bytes(instrument as u64)])
}

/// The hash of an instrument.
fn hash_instrument(instrument: usize) -> (result: u64)
    ensures
        result == instrument_hash(instrument),
{
    let mut hasher = DefaultHasher::new();
    let bytes = u64_to_le_bytes(instrument as u64);
    hasher.write(bytes.as_slice());
    assert(hasher@ =~= seq![spec_u64_to_le_bytes(instrument as u64)]);
    hasher.finish()
}

/// The key of an observation of the kind on the instrument with the hash.
pub fn observation_key(instrument_hash: u64, kind: u8) -> (result: ObservationKey)
    ensures
        result == (ObservationKey { instrument: instrument_hash, kind }),
{
    ObservationKey { instrument: instrument_hash, kind }
}

/// What an event on the way to the engine observes.
pub trait MarketObservationKey {
    /// What [`MarketObservationKey::market_observation_key`] returns.
    open spec fn observed(&self) -> Option<ObservationKey> {
        arbitrary()
    }

    /// What is observed, if anything is.
    fn market_observation_key(&self) -> (result: Option<ObservationKey>)
        ensures
            result == self.observed(),
    ;
}

impl<Kind: ObservationKind> MarketObservationKey for MarketStreamEvent<Kind> {
    open spec fn observed(&self) -> Option<ObservationKey> {
        match self {
            MarketStreamEvent::Item(event) => Some(
                ObservationKey {
                    instrument: instrument_hash(event.instrument),
                    kind: event.kind.tag(),
                },
            ),
            MarketStreamEvent::Reconnecting(_) => None,
        }
    }

    fn market_observation_key(&self) -> (result: Option<ObservationKey>) {
        match self {
            MarketStreamEvent::Item(event) => Some(
                observation_key(hash_instrument(event.instrument), event.kind.kind_tag()),
            ),
            MarketStreamEvent::Reconnecting(_) => None,
        }
    }
}

/// What `chrono::DateTime::signed_duration_since` and `chrono::TimeDelta::to_std` make of two
/// points in time, in nanoseconds.
pub uninterp spec fn elapsed_nanos(
    earlier_secs: i64,
    earlier_nanos: u32,
    later_secs: i64,
    later_nanos: u32,
) -> Option<u128>;

/// The nanoseconds from one point in time to another, unless that is earlier.
pub open spec fn nanos_between(earlier: Timestamp, later: Timestamp) -> Option<u128> {
    let span = nanos_since_epoch(later) - nanos_since_epoch(earlier);
    if span >= 0 {
        Some(span as u128)
    } else {
        None
    }
}

/// `chrono::DateTime::signed_duration_since` and `chrono::TimeDelta::to_std`: the span from one
/// point in time to another, unless that is earlier. Of points in time that lie in a leap second
/// or cannot be held, no more is said than that the result depends on them.
#[verifier::external_body]
fn elapsed(earlier: Timestamp, later: Timestamp) -> (result: Option<u128>)
    ensures
        result == elapsed_nanos(earlier.secs, earlier.nanos, later.secs, later.nanos),
        ordinary(earlier) && ordinary(later) ==> result == nanos_between(earlier, later),
{
    let earlier = chrono::DateTime::<chrono::Utc>::from_timestamp(earlier.secs, earlier.nanos)?;
    let later = chrono::DateTime::<chrono::Utc>::from_timestamp(later.secs, later.nanos)?;
    match later.signed_duration_since(earlier).to_std() {
        Ok(span) => Some(span.as_nanos()),
        Err(_) => None,
    }
}

/// How late an event is.
pub trait MarketLatencyTimes {
    /// What [`MarketLatencyTimes::exchange_to_received`] returns.
    open spec fn delay(&self) -> Option<Duration> {
        arbitrary()
    }

    /// The time from the exchange to the receipt, unless the clocks disagree.
    fn exchange_to_received(&self) -> (result: Option<Duration>)
        ensures
            result == self.delay(),
    ;
}

/// The span of so many nanoseconds, where there is one.
pub open spec fn span_of(nanos: Option<u128>) -> Option<Duration> {
    match nanos {
        Some(nanos) => Some(Duration { nanos }),
        None => None,
    }
}

/// The time from one point to another, unless that is earlier.
pub fn time_between(earlier: Timestamp, later: Timestamp) -> (result: Option<Duration>)
    ensures
        result == span_of(
            elapsed_nanos(earlier.secs, earlier.nanos, later.secs, later.nanos),
        ),
        ordinary(earlier) && ordinary(later) ==> result == span_of(nanos_between(earlier, later)),
{
    match elapsed(earlier, later) {
        Some(nanos) => Some(Duration { nanos }),
        None => None,
    }
}

impl<Kind> MarketLatencyTimes for MarketStreamEvent<Kind> {
    open spec fn delay(&self) -> Option<Duration> {
        match self {
            MarketStreamEvent::Item(event) => span_of(
                elapsed_nanos(
                    event.time_exchange.secs,
                    event.time_exchange.nanos,
                    event.time_received.secs,
                    event.time_received.nanos,
                ),
            ),
            MarketStreamEvent::Reconnecting(_) => None,
        }
    }

    fn exchange_to_received(&self) -> (result: Option<Duration>)
        ensures
            self matches MarketStreamEvent::Item(event) && ordinary(event.time_exchange)
                && ordinary(event.time_received) ==> match result {
                Some(delay) => nanos_since_epoch(self->Item_0.time_received) == nanos_since_epoch(
                    self->Item_0.time_exchange,
                ) + delay.nanos,
                None => self->Item_0.time_received.before(self->Item_0.time_exchange),
            },
            self is Reconnecting ==> result is None,
    {
        match self {
            MarketStreamEvent::Item(event) => time_between(
                event.time_exchange,
                event.time_received,
            ),
            MarketStreamEvent::Reconnecting(_) => None,
        }
    }
}

/// The key of an observation is a matter of the instrument and the kind alone, on every call: of
/// two events of one instrument it is the same just where they are of one kind, whatever else they
/// hold. A reconnect has none.
pub proof fn law_key_is_of_instrument_and_kind<Kind: ObservationKind>(
    first: MarketStreamEvent<Kind>,
    second: MarketStreamEvent<Kind>,
)
    ensures
        first.observed() is None <==> first is Reconnecting,
        (first matches MarketStreamEvent::Item(a) && second matches MarketStreamEvent::Item(b)
            && a.instrument == b.instrument) ==> (first.observed() == second.observed()
            <==> first->Item_0.kind.tag() == second->Item_0.kind.tag()),
        (first matches MarketStreamEvent::Item(a) && second matches MarketStreamEvent::Item(b)
            && first.observed() == second.observed()) ==> first->Item_0.kind.tag()
            == second->Item_0.kind.tag(),
{
}

/// Kinds of market data are told apart: data of one number is of one kind.
pub proof fn law_kinds_are_told_apart(first: DataKind, second: DataKind)
    ensures
        first.tag() == second.tag() <==> match (first, second) {
            (DataKind::Trade(_), DataKind::Trade(_)) => true,
            (DataKind::OrderBookL1(_), DataKind::OrderBookL1(_)) => true,
            (DataKind::OrderBook(_), DataKind::OrderBook(_)) => true,
            (DataKind::Candle(_), DataKind::Candle(_)) => true,
            (DataKind::Liquidation(_), DataKind::Liquidation(_)) => true,
            _ => false,
        },
{
}

/// A piece of market data has the number of its kind, whether it stands alone or as one of several
/// kinds.
pub proof fn law_kind_is_the_same_alone(kind: DataKind)
    ensures
        match kind {
            DataKind::Trade(trade) => kind.tag() == trade.tag(),
            DataKind::OrderBookL1(book) => kind.tag() == book.tag(),
            DataKind::OrderBook(event) => kind.tag() == event.tag(),
            DataKind::Candle(candle) => kind.tag() == candle.tag(),
            DataKind::Liquidation(liquidation) => kind.tag() == liquidation.tag(),
        },
{
}

/// The key of an observation names the kind, and the hash of the eight bytes of the instrument.
pub proof fn law_key_names_instrument_and_kind<Kind: ObservationKind>(event: MarketEvent<Kind>)
    ensures
        MarketStreamEvent::Item(event).observed() matches Some(key) && key.kind == event.kind.tag()
            && key.instrument == DefaultHasher::spec_finish(
            seq![spec_u64_to_le_bytes(event.instrument as u64)],
        ),
{
}

} // verus!
