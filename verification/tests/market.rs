use barter::decimal::Decimal;
use barter::instrument::Side;
use barter::market::{
    ConservativeQueue, FixedLatency, LatencyModel, MockMarketEventKind, MockMarketLevel,
    MockOrderBook, NoQueue, QueueModel,
};

fn d(value: i64) -> Decimal {
    Decimal::from(value)
}

fn level(price: i64, quantity: i64) -> MockMarketLevel {
    MockMarketLevel {
        price: d(price),
        quantity: d(quantity),
    }
}

struct HalfQueue;

impl QueueModel for HalfQueue {
    fn executable_quantity(&self, available: Decimal, requested: Decimal) -> Decimal {
        available.checked_div(&d(2)).unwrap().min(requested)
    }

    fn executable_trade_quantity(
        &self,
        _available: Decimal,
        _requested: Decimal,
        _side: Side,
        _order_price: Decimal,
        _trade_price: Decimal,
    ) -> Decimal {
        Decimal::zero()
    }
}

#[test]
fn walks_multiple_ask_levels_deterministically() {
    let book = MockOrderBook {
        asks: vec![level(10, 2), level(12, 3)],
        ..Default::default()
    };
    assert_eq!(book.walk_asks(d(5)), Some(Decimal::new(112, 1)));
    assert_eq!(book.walk_asks(d(6)), None);
    let (filled, _) = book.walk_asks_until_with(d(2), None, &HalfQueue).unwrap();
    assert_eq!(filled, d(2));
}

#[test]
fn a_taker_gets_the_smaller_of_what_is_wanted_and_what_stands_within_the_limit() {
    let book = MockOrderBook {
        asks: vec![level(10, 2), level(12, 3), level(13, 4)],
        ..Default::default()
    };
    for wanted in 1..12 {
        for (limit, standing) in [(9, 0), (10, 2), (11, 2), (12, 5), (13, 9)] {
            let filled = match book.walk_asks_until(d(wanted), Some(d(limit))) {
                Some((filled, _)) => filled,
                None => Decimal::zero(),
            };
            assert_eq!(filled, d(wanted.min(standing)));
        }
    }
}

struct SplitLatency;

impl LatencyModel for SplitLatency {
    fn delay_ms(&self, configured_ms: u64) -> u64 {
        configured_ms
    }

    fn feed_delay_ms(&self, _configured_ms: u64) -> u64 {
        3
    }

    fn order_delay_ms(&self, _configured_ms: u64) -> u64 {
        7
    }
}

#[test]
fn latency_model_exposes_independent_feed_and_order_delays() {
    let model = SplitLatency;
    assert_eq!(model.feed_delay_ms(100), 3);
    assert_eq!(model.order_delay_ms(100), 7);
}

#[test]
fn fixed_latency_is_the_configured_one() {
    assert_eq!(FixedLatency.delay_ms(25), 25);
    assert_eq!(FixedLatency.feed_delay_ms(25), 25);
    assert_eq!(FixedLatency.order_delay_ms(25), 25);
}

#[test]
fn conservative_queue_waits_for_trade_through() {
    let book = MockOrderBook {
        asks: vec![level(10, 5)],
        ..Default::default()
    };
    assert_eq!(
        book.walk_asks_until_with(d(2), None, &ConservativeQueue),
        None
    );
    assert_eq!(
        ConservativeQueue.executable_trade_quantity(d(3), d(2), Side::Buy, d(10), d(9)),
        d(2)
    );
    assert_eq!(
        ConservativeQueue.executable_trade_quantity(d(3), d(2), Side::Buy, d(10), d(11)),
        Decimal::zero()
    );
}

#[test]
fn conservative_queue_fills_a_sell_at_its_price_or_above() {
    assert_eq!(
        ConservativeQueue.executable_trade_quantity(d(3), d(5), Side::Sell, d(10), d(10)),
        d(3)
    );
    assert_eq!(
        ConservativeQueue.executable_trade_quantity(d(3), d(5), Side::Sell, d(10), d(9)),
        Decimal::zero()
    );
}

#[test]
fn touch_model_never_fills_on_a_trade() {
    assert_eq!(
        NoQueue.executable_trade_quantity(d(3), d(2), Side::Buy, d(10), d(9)),
        Decimal::zero()
    );
}

#[test]
fn updated_book_has_its_best_prices_first_and_keeps_equal_ones_in_order() {
    let mut book = MockOrderBook::default();
    book.update(MockMarketEventKind::OrderBook {
        bids: vec![level(9, 1), level(11, 2), level(9, 3), level(10, 4)],
        asks: vec![level(13, 1), level(12, 2), level(13, 3), level(14, 4)],
    });
    assert_eq!(
        book.bids,
        vec![level(11, 2), level(10, 4), level(9, 1), level(9, 3)]
    );
    assert_eq!(
        book.asks,
        vec![level(12, 2), level(13, 1), level(13, 3), level(14, 4)]
    );
    book.update(MockMarketEventKind::Trade {
        price: d(1),
        quantity: d(1),
    });
    assert_eq!(book.bids.len(), 4);
}

#[test]
fn bids_are_walked_down_to_the_limit() {
    let book = MockOrderBook {
        bids: vec![level(12, 1), level(10, 1), level(8, 5)],
        ..Default::default()
    };
    assert_eq!(
        book.walk_bids_until(d(4), Some(d(10))),
        Some((d(2), d(11)))
    );
    assert_eq!(book.walk_bids(d(2)), Some(d(11)));
    assert_eq!(book.walk_bids(d(8)), None);
    assert_eq!(book.walk_bids_until(d(4), Some(d(13))), None);
}

#[test]
fn one_level_fills_at_its_own_price() {
    let book = MockOrderBook {
        asks: vec![MockMarketLevel {
            price: Decimal::new(10_005, 3),
            quantity: Decimal::new(7, 1),
        }],
        ..Default::default()
    };
    assert_eq!(
        book.walk_asks_until(Decimal::new(3, 1), Some(d(11))),
        Some((Decimal::new(3, 1), Decimal::new(10_005, 3)))
    );
}

#[test]
fn a_walk_out_of_range_is_told() {
    let huge = Decimal::from_parts(79_228_162_514_264_337_593_543_950_335, 0).unwrap();
    let book = MockOrderBook {
        asks: vec![MockMarketLevel {
            price: huge,
            quantity: d(2),
        }],
        ..Default::default()
    };
    assert_eq!(book.try_walk(Side::Buy, d(2), None, &NoQueue), None);
    assert_eq!(book.try_walk_all(Side::Buy, d(2)), None);
    assert_eq!(book.try_walk_all(Side::Sell, d(2)), Some(None));
}
