use barter::backtest::{
    accept_market_timestamp, deliver, Delivery, IntoMockMarketKind, LatestTimes,
};
use barter::decimal::Decimal;
use barter::instrument::{ExchangeId, Side};
use barter::market::{MockMarketEvent, MockMarketEventKind, MockMarketLevel};
use barter::observation::{
    time_between, Candle, DataKind, Level, Liquidation, MarketEvent, MarketLatencyTimes,
    MarketObservationKey, MarketStreamEvent, ObservationKind, OrderBook, OrderBookEvent,
    OrderBookL1, PublicTrade,
};
use barter::time::{Duration, Timestamp};
use rust_decimal::prelude::FromPrimitive;
use std::collections::hash_map::DefaultHasher;
use std::hash::{Hash, Hasher};

fn d(value: i64) -> Decimal {
    Decimal::from(value)
}

fn at(secs: i64) -> Timestamp {
    Timestamp { secs, nanos: 0 }
}

fn from_f64(value: f64) -> Option<Decimal> {
    let value = rust_decimal::Decimal::from_f64(value)?;
    Decimal::from_parts(value.mantissa(), value.scale())
}

fn l1() -> DataKind {
    DataKind::OrderBookL1(OrderBookL1 {
        last_update_time: at(0),
        best_bid: Some(Level {
            price: d(10),
            amount: d(2),
        }),
        best_ask: Some(Level {
            price: d(11),
            amount: d(3),
        }),
    })
}

fn public_trade(price: f64, amount: f64) -> DataKind {
    DataKind::Trade(PublicTrade {
        id: "trade-1".to_string(),
        price: from_f64(price),
        amount: from_f64(amount),
        side: Side::Buy,
    })
}

fn levels(levels: &[(i64, i64)]) -> Vec<Level> {
    levels
        .iter()
        .map(|(price, amount)| Level {
            price: d(*price),
            amount: d(*amount),
        })
        .collect()
}

fn l2() -> OrderBook {
    OrderBook {
        sequence: 7,
        bids: levels(&[(10, 2), (9, 1)]),
        asks: levels(&[(11, 3), (12, 4)]),
    }
}

#[test]
fn market_data_bridge_supports_l1_and_public_trades() {
    assert_eq!(
        l1().into_mock_market_kind(),
        Some(MockMarketEventKind::OrderBook {
            bids: vec![MockMarketLevel {
                price: d(10),
                quantity: d(2),
            }],
            asks: vec![MockMarketLevel {
                price: d(11),
                quantity: d(3),
            }],
        })
    );
    assert_eq!(
        public_trade(10.5, 2.0).into_mock_market_kind(),
        Some(MockMarketEventKind::Trade {
            price: Decimal::new(105, 1),
            quantity: d(2),
        })
    );
}

#[test]
fn identical_ordered_market_inputs_have_byte_identical_event_streams() {
    fn encoded_stream(inputs: &[DataKind]) -> Vec<u8> {
        let events = inputs
            .iter()
            .enumerate()
            .filter_map(|(sequence, input)| {
                input.into_mock_market_kind().map(|kind| MockMarketEvent {
                    instrument: "BTCUSDT".to_string(),
                    time_exchange: at(sequence as i64),
                    kind,
                })
            })
            .collect::<Vec<_>>();
        format!("{events:?}").into_bytes()
    }

    fn build_inputs() -> Vec<DataKind> {
        vec![
            l1(),
            public_trade(10.5, 2.0),
            DataKind::OrderBook(OrderBookEvent::Snapshot(l2())),
        ]
    }

    assert_eq!(
        encoded_stream(&build_inputs()),
        encoded_stream(&build_inputs())
    );

    let mut latest = LatestTimes::new();
    let exchange = ExchangeId::BinanceSpot;
    assert!(accept_market_timestamp(&mut latest, exchange, 0, at(10)));
    assert!(accept_market_timestamp(&mut latest, exchange, 1, at(0)));
    assert!(!accept_market_timestamp(&mut latest, exchange, 0, at(0)));
}

#[test]
fn l2_backtest_bridge_preserves_sorted_levels_deterministically() {
    let kind = DataKind::OrderBook(OrderBookEvent::Snapshot(l2()));
    let MockMarketEventKind::OrderBook { bids, asks } = kind.into_mock_market_kind().unwrap()
    else {
        panic!("expected L2 order book");
    };
    assert_eq!(bids[0].price, d(10));
    assert_eq!(asks[0].price, d(11));
}

#[test]
fn data_without_a_price_or_a_book_is_not_bridged() {
    assert_eq!(public_trade(f64::NAN, 2.0).into_mock_market_kind(), None);
    assert_eq!(public_trade(1.0, f64::INFINITY).into_mock_market_kind(), None);
    assert_eq!(
        public_trade(1.0, -2.5).into_mock_market_kind(),
        Some(MockMarketEventKind::Trade {
            price: d(1),
            quantity: Decimal::new(25, 1),
        })
    );
    let candle = DataKind::Candle(Candle { close_time: at(1) });
    assert_eq!(candle.into_mock_market_kind(), None);
    let update = DataKind::OrderBook(OrderBookEvent::Update(l2()));
    assert!(update.into_mock_market_kind().is_some());
}

fn event(secs: i64, instrument: usize, kind: DataKind) -> MarketStreamEvent<DataKind> {
    MarketStreamEvent::Item(MarketEvent {
        time_exchange: at(secs),
        time_received: Timestamp {
            secs,
            nanos: 250_000_000,
        },
        exchange: ExchangeId::BinanceSpot,
        instrument,
        kind,
    })
}

#[test]
fn events_reach_the_exchange_first_and_never_go_back_in_time() {
    let names = vec!["BTCUSDT".to_string()];
    let mut latest = LatestTimes::new();
    assert!(matches!(
        deliver(&mut latest, &names, &event(10, 0, l1())),
        Delivery::ExchangeThenEngine(ExchangeId::BinanceSpot, sent)
            if sent.instrument == "BTCUSDT" && sent.time_exchange == at(10)
    ));
    assert_eq!(deliver(&mut latest, &names, &event(9, 0, l1())), Delivery::Skip);
    assert_eq!(deliver(&mut latest, &names, &event(1, 1, l1())), Delivery::Engine);
    let liquidation = DataKind::Liquidation(Liquidation {
        side: Side::Buy,
        time: at(1),
    });
    assert_eq!(
        deliver(&mut latest, &names, &event(10, 0, liquidation)),
        Delivery::Engine
    );
    assert_eq!(
        deliver::<DataKind>(
            &mut latest,
            &names,
            &MarketStreamEvent::Reconnecting(ExchangeId::Mock)
        ),
        Delivery::Engine
    );
}

#[test]
fn observations_are_keyed_by_instrument_and_kind() {
    let first = event(1, 0, l1()).market_observation_key().unwrap();
    let again = event(2, 0, l1()).market_observation_key().unwrap();
    let other = event(1, 1, l1()).market_observation_key().unwrap();
    let trade = event(1, 0, public_trade(1.0, 1.0)).market_observation_key().unwrap();
    assert_eq!(first, again);
    assert_ne!(first.instrument, other.instrument);
    assert_eq!(first.instrument, trade.instrument);
    assert_eq!((first.kind, trade.kind), (1, 0));
    assert_ne!(first.instrument, 0);
    let reconnecting: MarketStreamEvent<DataKind> =
        MarketStreamEvent::Reconnecting(ExchangeId::Mock);
    assert_eq!(reconnecting.market_observation_key(), None);
    assert_eq!(DataKind::Candle(Candle { close_time: at(1) }).kind_tag(), 3);
    assert_eq!(OrderBookEvent::Snapshot(l2()).kind_tag(), 2);
}

#[test]
fn the_key_holds_the_hash_of_the_instrument() {
    for instrument in [0, 1, 7, 1_000_000] {
        let key = event(1, instrument, l1()).market_observation_key().unwrap();
        let mut hasher = DefaultHasher::new();
        instrument.hash(&mut hasher);
        assert_eq!(key.instrument, hasher.finish());
    }
}

#[test]
fn exchanges_are_told_apart_by_their_times() {
    let mut latest = LatestTimes::new();
    let exchanges = [
        ExchangeId::Mock,
        ExchangeId::BinanceSpot,
        ExchangeId::Other(0),
        ExchangeId::Other(u32::MAX),
    ];
    for exchange in exchanges {
        assert!(accept_market_timestamp(&mut latest, exchange, 0, at(5)));
    }
    assert!(!accept_market_timestamp(&mut latest, ExchangeId::Other(0), 0, at(4)));
    assert!(accept_market_timestamp(&mut latest, ExchangeId::Other(1), 0, at(4)));
}

#[test]
fn lateness_is_the_time_from_the_exchange_to_the_receipt() {
    assert_eq!(
        event(5, 0, l1()).exchange_to_received(),
        Some(Duration::from_millis(250))
    );
    assert_eq!(
        time_between(Timestamp { secs: -2, nanos: 1 }, Timestamp { secs: 1, nanos: 0 }),
        Some(Duration { nanos: 2_999_999_999 })
    );
    assert_eq!(time_between(at(2), at(1)), None);
    let reconnecting: MarketStreamEvent<DataKind> =
        MarketStreamEvent::Reconnecting(ExchangeId::Mock);
    assert_eq!(reconnecting.exchange_to_received(), None);
}
