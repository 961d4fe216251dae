//! The bridge from recorded market data to a paper exchange.

use crate::instrument::ExchangeId;
use crate::market::{MarketKindView, MockMarketEvent, MockMarketEventKind, MockMarketLevel};
use crate::observation::{DataKind, Level, MarketEvent, MarketStreamEvent, OrderBookEvent};
use crate::time::Timestamp;
use fnv::FnvHashMap;
use vstd::prelude::*;

verus! {

/// What a [`FnvHashMap`] from exchanges and instruments to points in time holds.
pub uninterp spec fn times_contents(
    times: FnvHashMap<(u64, u64), (i64, u32)>,
) -> Map<(u64, u64), (i64, u32)>;

/// The `default` of a [`FnvHashMap`]: it is empty.
#[verifier::external_body]
fn times_new() -> (result: FnvHashMap<(u64, u64), (i64, u32)>)
    ensures
        times_contents(result).is_empty(),
{
    FnvHashMap::default()
}

/// The `get` of a [`FnvHashMap`]: the point in time held for the key, if there is one.
#[verifier::external_body]
fn times_get(times: &FnvHashMap<(u64, u64), (i64, u32)>, key: (u64, u64)) -> (result: Option<
    (i64, u32),
>)
    ensures
        result == (if times_contents(*times).contains_key(key) {
            Some(times_contents(*times)[key])
        } else {
            None
        }),
{
    times.get(&key).copied()
}

/// The `insert` of a [`FnvHashMap`]: the key then leads to the point in time.
#[verifier::external_body]
fn times_insert(times: &mut FnvHashMap<(u64, u64), (i64, u32)>, key: (u64, u64), time: (i64, u32))
    ensures
        times_contents(*final(times)) == times_contents(*old(times)).insert(key, time),
{
    times.insert(key, time);
}

/// The number of an exchange.
pub open spec fn exchange_number(exchange: ExchangeId) -> u64 {
    match exchange {
        ExchangeId::Mock => 0,
        ExchangeId::BinanceSpot => 1,
        ExchangeId::Other(number) => (number + 2) as u64,
    }
}

/// The time of the last event of each instrument.
pub struct LatestTimes {
    times: FnvHashMap<(u64, u64), (i64, u32)>,
}

impl LatestTimes {
    /// The time of the last event of the instrument, if there was one.
    pub closed spec fn latest(&self, exchange: ExchangeId, instrument: usize) -> Option<Timestamp> {
        let key = (exchange_number(exchange), instrument as u64);
        if times_contents(self.times).contains_key(key) {
            Some(
                Timestamp {
                    secs: times_contents(self.times)[key].0,
                    nanos: times_contents(self.times)[key].1,
                },
            )
        } else {
            None
        }
    }

    /// No event yet.
    pub fn new() -> (result: LatestTimes)
        ensures
            forall|exchange: ExchangeId, instrument: usize| #[trigger]
                result.latest(exchange, instrument) is None,
    {
        LatestTimes { times: times_new() }
    }
}

/// An event at the time comes no earlier than the last one.
pub open spec fn in_order(previous: Option<Timestamp>, current: Timestamp) -> bool {
    previous matches Some(previous) ==> !current.before(previous)
}

/// Whether an event of the instrument comes no earlier than the last one. Then it is the last one.
pub fn accept_market_timestamp(
    latest_by_instrument: &mut LatestTimes,
    exchange: ExchangeId,
    instrument: usize,
    current: Timestamp,
) -> (result: bool)
    ensures
        result == in_order(old(latest_by_instrument).latest(exchange, instrument), current),
        forall|other_exchange: ExchangeId, other: usize| #[trigger]
            final(latest_by_instrument).latest(other_exchange, other) == (if result
                && other_exchange == exchange && other == instrument {
                Some(current)
            } else {
                old(latest_by_instrument).latest(other_exchange, other)
            }),
{
    let number: u64 = match exchange {
        ExchangeId::Mock => 0,
        ExchangeId::BinanceSpot => 1,
        ExchangeId::Other(number) => number as u64 + 2,
    };
    let key = (number, instrument as u64);
    match times_get(&latest_by_instrument.times, key) {
        Some(previous) => {
            let previous = Timestamp { secs: previous.0, nanos: previous.1 };
            if current.is_before(&previous) {
                return false;
            }
        },
        None => {},
    }
    times_insert(&mut latest_by_instrument.times, key, (current.secs, current.nanos));
    true
}

/// What a paper exchange is told, where it is told anything.
pub open spec fn kind_view(kind: Option<MockMarketEventKind>) -> Option<MarketKindView> {
    match kind {
        Some(kind) => Some(kind@),
        None => None,
    }
}

/// Market data that a paper exchange may be told about.
pub trait IntoMockMarketKind {
    /// What [`IntoMockMarketKind::into_mock_market_kind`] returns.
    open spec fn market_kind(&self) -> Option<MarketKindView> {
        arbitrary()
    }

    /// What a paper exchange is told, if anything.
    fn into_mock_market_kind(&self) -> (result: Option<MockMarketEventKind>)
        ensures
            kind_view(result) == self.market_kind(),
    ;
}

/// A level as a paper exchange keeps it.
pub open spec fn mock_level(level: Level) -> MockMarketLevel {
    MockMarketLevel { price: level.price, quantity: level.amount }
}

/// Levels as a paper exchange keeps them.
pub open spec fn mock_levels(levels: Seq<Level>) -> Seq<MockMarketLevel> {
    levels.map_values(|level: Level| mock_level(level))
}

/// The one level there is, or none.
pub open spec fn best_level(level: Option<Level>) -> Seq<MockMarketLevel> {
    match level {
        Some(level) => seq![mock_level(level)],
        None => Seq::empty(),
    }
}

/// Levels as a paper exchange keeps them.
fn build_levels(levels: &Vec<Level>) -> (result: Vec<MockMarketLevel>)
    ensures
        result@ == mock_levels(levels@),
        result@.len() == levels@.len(),
        forall|i: int|
            0 <= i < levels@.len() ==> (#[trigger] result@[i]).price == levels@[i].price
                && result@[i].quantity == levels@[i].amount,
{
    let mut result: Vec<MockMarketLevel> = Vec::new();
    let mut next: usize = 0;
    while next < levels.len()
        invariant
            next <= levels.len(),
            result@ == mock_levels(levels@.take(next as int)),
        decreases levels.len() - next,
    {
        let level = levels[next];
        result.push(MockMarketLevel { price: level.price, quantity: level.amount });
        next = next + 1;
        assert(result@ =~= mock_levels(levels@.take(next as int)));
    }
    assert(levels@.take(next as int) =~= levels@);
    result
}

/// The one level there is, or none.
fn build_best_level(level: &Option<Level>) -> (result: Vec<MockMarketLevel>)
    ensures
        result@ == best_level(*level),
{
    let mut result: Vec<MockMarketLevel> = Vec::new();
    match level {
        Some(level) => result.push(
            MockMarketLevel { price: level.price, quantity: level.amount },
        ),
        None => {},
    }
    assert(result@ =~= best_level(*level));
    result
}

impl IntoMockMarketKind for DataKind {
    open spec fn market_kind(&self) -> Option<MarketKindView> {
        match self {
            DataKind::Trade(trade) => match (trade.price, trade.amount) {
                (Some(price), Some(amount)) => Some(
                    MarketKindView::Trade { price, quantity: amount.magnitude() },
                ),
                _ => None,
            },
            DataKind::OrderBookL1(book) => Some(
                MarketKindView::OrderBook {
                    bids: best_level(book.best_bid),
                    asks: best_level(book.best_ask),
                },
            ),
            DataKind::OrderBook(OrderBookEvent::Snapshot(book)) => Some(
                MarketKindView::OrderBook {
                    bids: mock_levels(book.bids@),
                    asks: mock_levels(book.asks@),
                },
            ),
            DataKind::OrderBook(OrderBookEvent::Update(book)) => Some(
                MarketKindView::OrderBook {
                    bids: mock_levels(book.bids@),
                    asks: mock_levels(book.asks@),
                },
            ),
            DataKind::Candle(_) => None,
            DataKind::Liquidation(_) => None,
        }
    }

    fn into_mock_market_kind(&self) -> (result: Option<MockMarketEventKind>) {
        match self {
            DataKind::Trade(trade) => match (trade.price, trade.amount) {
                (Some(price), Some(amount)) => Some(
                    MockMarketEventKind::Trade { price, quantity: amount.abs() },
                ),
                _ => None,
            },
            DataKind::OrderBookL1(book) => Some(
                MockMarketEventKind::OrderBook {
                    bids: build_best_level(&book.best_bid),
                    asks: build_best_level(&book.best_ask),
                },
            ),
            DataKind::OrderBook(OrderBookEvent::Snapshot(book)) => Some(
                MockMarketEventKind::OrderBook {
                    bids: build_levels(&book.bids),
                    asks: build_levels(&book.asks),
                },
            ),
            DataKind::OrderBook(OrderBookEvent::Update(book)) => Some(
                MockMarketEventKind::OrderBook {
                    bids: build_levels(&book.bids),
                    asks: build_levels(&book.asks),
                },
            ),
            DataKind::Candle(_) => None,
            DataKind::Liquidation(_) => None,
        }
    }
}

/// What becomes of an event of recorded market data.
#[derive(Debug, PartialEq, Eq)]
pub enum Delivery {
    /// It comes too late and is left out.
    Skip,
    /// It goes to the engine.
    Engine,
    /// The paper exchange takes it before it goes to the engine.
    ExchangeThenEngine(ExchangeId, MockMarketEvent),
}

/// What the paper exchange is told of an event, where the instrument has a name.
pub open spec fn told<Kind: IntoMockMarketKind>(
    event: MarketEvent<Kind>,
    names: Seq<String>,
) -> Option<MarketKindView> {
    if event.instrument < names.len() {
        event.kind.market_kind()
    } else {
        None
    }
}

/// Says what becomes of an event: each instrument's events are taken in the order of their times,
/// and the paper exchange takes them before the engine does.
pub fn deliver<Kind: IntoMockMarketKind>(
    latest: &mut LatestTimes,
    names: &Vec<String>,
    event: &MarketStreamEvent<Kind>,
) -> (result: Delivery)
    ensures
        match event {
            MarketStreamEvent::Reconnecting(_) => result is Engine && forall|
                exchange: ExchangeId,
                instrument: usize,
            | #[trigger]
                final(latest).latest(exchange, instrument) == old(latest).latest(
                    exchange,
                    instrument,
                ),
            MarketStreamEvent::Item(event) => {
                let timely = in_order(
                    old(latest).latest(event.exchange, event.instrument),
                    event.time_exchange,
                );
                &&& match result {
                    Delivery::Skip => !timely,
                    Delivery::Engine => timely && told(*event, names@) is None,
                    Delivery::ExchangeThenEngine(exchange, sent) => timely && exchange
                        == event.exchange && told(*event, names@) == Some(sent.kind@)
                        && sent.instrument@ == names@[event.instrument as int]@
                        && sent.time_exchange == event.time_exchange,
                }
                &&& forall|exchange: ExchangeId, instrument: usize| #[trigger]
                    final(latest).latest(exchange, instrument) == (if timely && exchange
                        == event.exchange && instrument == event.instrument {
                        Some(event.time_exchange)
                    } else {
                        old(latest).latest(exchange, instrument)
                    })
            },
        },
{
    let event = match event {
        MarketStreamEvent::Item(event) => event,
        MarketStreamEvent::Reconnecting(_) => return Delivery::Engine,
    };
    if !accept_market_timestamp(latest, event.exchange, event.instrument, event.time_exchange) {
        return Delivery::Skip;
    }
    if event.instrument >= names.len() {
        return Delivery::Engine;
    }
    match event.kind.into_mock_market_kind() {
        Some(kind) => Delivery::ExchangeThenEngine(
            event.exchange,
            MockMarketEvent {
                instrument: names[event.instrument].clone(),
                time_exchange: event.time_exchange,
                kind,
            },
        ),
        None => Delivery::Engine,
    }
}

/// The times of the events of an instrument that are accepted, one after the other.
pub open spec fn accepted(previous: Option<Timestamp>, times: Seq<Timestamp>) -> Seq<Timestamp>
    decreases times.len(),
{
    if times.len() == 0 {
        Seq::empty()
    } else if in_order(previous, times[0]) {
        seq![times[0]] + accepted(Some(times[0]), times.skip(1))
    } else {
        accepted(previous, times.skip(1))
    }
}

/// Accepted events of an instrument never go back in time.
pub proof fn law_accepted_times_never_go_back(
    previous: Option<Timestamp>,
    times: Seq<Timestamp>,
    i: int,
    j: int,
)
    requires
        0 <= i < j < accepted(previous, times).len(),
    ensures
        !accepted(previous, times)[j].before(accepted(previous, times)[i]),
    decreases times.len(),
{
    if in_order(previous, times[0]) {
        let rest = accepted(Some(times[0]), times.skip(1));
        assert(accepted(previous, times) =~= seq![times[0]] + rest);
        if i == 0 {
            lemma_accepted_after(times[0], times.skip(1), j - 1);
        } else {
            law_accepted_times_never_go_back(Some(times[0]), times.skip(1), i - 1, j - 1);
        }
    } else {
        law_accepted_times_never_go_back(previous, times.skip(1), i, j);
    }
}

/// Nothing that is accepted comes before the last event.
proof fn lemma_accepted_after(previous: Timestamp, times: Seq<Timestamp>, j: int)
    requires
        0 <= j < accepted(Some(previous), times).len(),
    ensures
        !accepted(Some(previous), times)[j].before(previous),
    decreases times.len(),
{
    if in_order(Some(previous), times[0]) {
        let rest = accepted(Some(times[0]), times.skip(1));
        assert(accepted(Some(previous), times) =~= seq![times[0]] + rest);
        if j > 0 {
            lemma_accepted_after(times[0], times.skip(1), j - 1);
        }
    } else {
        lemma_accepted_after(previous, times.skip(1), j);
    }
}

/// Where the times of the events of an instrument never go back, every event is accepted.
pub proof fn law_ordered_times_are_all_accepted(
    previous: Option<Timestamp>,
    times: Seq<Timestamp>,
)
    requires
        forall|i: int, j: int|
            0 <= i < j < times.len() ==> !(#[trigger] times[j]).before(#[trigger] times[i]),
        times.len() > 0 ==> in_order(previous, times[0]),
    ensures
        accepted(previous, times) == times,
    decreases times.len(),
{
    if times.len() > 0 {
        let rest = times.skip(1);
        assert forall|i: int, j: int| 0 <= i < j < rest.len() implies !(#[trigger] rest[j]).before(
            #[trigger] rest[i],
        ) by {
            assert(rest[i] == times[i + 1] && rest[j] == times[j + 1]);
        }
        if rest.len() > 0 {
            assert(!times[1].before(times[0]));
        }
        law_ordered_times_are_all_accepted(Some(times[0]), rest);
        assert(seq![times[0]] + rest =~= times);
    } else {
        assert(accepted(previous, times) =~= times);
    }
}

/// An event is in order unless it lies before the last one.
pub proof fn law_order_is_by_time(previous: Timestamp, current: Timestamp)
    requires
        previous.nanos < 1_000_000_000,
        current.nanos < 1_000_000_000,
    ensures
        in_order(Some(previous), current) <==> current.secs * 1_000_000_000 + current.nanos
            >= previous.secs * 1_000_000_000 + previous.nanos,
        in_order(None, current),
{
}

/// The paper exchange is told of an event what is to be told of its kind, where the instrument has
/// a name.
pub proof fn law_named_instruments_are_told<Kind: IntoMockMarketKind>(
    event: MarketEvent<Kind>,
    names: Seq<String>,
)
    ensures
        event.instrument < names.len() ==> told(event, names) == event.kind.market_kind(),
        event.instrument >= names.len() ==> told(event, names) is None,
{
}

} // verus!
