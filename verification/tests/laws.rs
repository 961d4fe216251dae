use barter::account::{AccountSnapshot, AccountState, AssetBalance, Balance};
use barter::backtest::{accept_market_timestamp, LatestTimes};
use barter::decimal::Decimal;
use barter::exchange::{MockExchange, MockExecutionConfig};
use barter::instrument::{ExchangeId, Instrument, Side, Underlying};
use barter::market::{
    ConservativeQueue, FixedLatency, LatencyModel, MockMarketEvent, MockMarketEventKind,
    MockMarketLevel, NoQueue, QueueModel,
};
use barter::names::NameMap;
use barter::order::{
    OrderEvent, OrderKey, OrderKind, OrderRequestOpen, RequestCancel, RequestOpen, TimeInForce,
};
use barter::time::Timestamp;

fn d(value: i64) -> Decimal {
    Decimal::from(value)
}

fn at(secs: i64) -> Timestamp {
    Timestamp { secs, nanos: 0 }
}

fn exchange<Q: QueueModel>(queue_model: Q) -> MockExchange<FixedLatency, Q> {
    let balances = [("BTC", 100), ("USDT", 10_000)]
        .into_iter()
        .map(|(asset, amount)| AssetBalance {
            asset: asset.to_string(),
            balance: Balance {
                total: d(amount),
                free: d(amount),
            },
            time_exchange: at(0),
        })
        .collect();
    let mut instruments = NameMap::new();
    instruments.insert(
        "BTCUSDT".to_string(),
        Instrument::spot(
            ExchangeId::Mock,
            "BTCUSDT".to_string(),
            Underlying {
                base: "BTC".to_string(),
                quote: "USDT".to_string(),
            },
            None,
        ),
    );
    let config = MockExecutionConfig {
        mocked_exchange: ExchangeId::Mock,
        initial_state: AccountSnapshot {
            exchange: ExchangeId::Mock,
            balances,
            instruments: vec![],
        },
        latency_ms: 0,
        fees_percent: Decimal::new(1, 2),
    };
    MockExchange::new_with_models(config, instruments, FixedLatency, queue_model)
}

fn limit(cid: &str, side: Side, quantity: i64, price: i64) -> OrderRequestOpen {
    OrderEvent {
        key: OrderKey {
            exchange: ExchangeId::Mock,
            instrument: "BTCUSDT".to_string(),
            strategy: "test".to_string(),
            cid: cid.to_string(),
        },
        state: RequestOpen {
            side,
            price: d(price),
            quantity: d(quantity),
            kind: OrderKind::Limit,
            time_in_force: TimeInForce::GoodUntilCancelled { post_only: false },
        },
    }
}

fn book(bids: &[(i64, i64)], asks: &[(i64, i64)]) -> MockMarketEvent {
    let levels = |levels: &[(i64, i64)]| {
        levels
            .iter()
            .map(|(price, quantity)| MockMarketLevel {
                price: d(*price),
                quantity: d(*quantity),
            })
            .collect()
    };
    MockMarketEvent {
        instrument: "BTCUSDT".to_string(),
        time_exchange: at(1),
        kind: MockMarketEventKind::OrderBook {
            bids: levels(bids),
            asks: levels(asks),
        },
    }
}

fn trade(price: i64, quantity: i64) -> MockMarketEvent {
    MockMarketEvent {
        instrument: "BTCUSDT".to_string(),
        time_exchange: at(1),
        kind: MockMarketEventKind::Trade {
            price: d(price),
            quantity: d(quantity),
        },
    }
}

fn assert_backed<L: LatencyModel, Q: QueueModel>(exchange: &MockExchange<L, Q>) {
    for balance in exchange.account.balances() {
        let mut reserved = Decimal::zero();
        for order in exchange.account.orders_open() {
            if let Some((asset, amount)) = exchange.account.reservation(&order.key.cid) {
                if *asset == balance.asset {
                    reserved = reserved.checked_add(amount).unwrap();
                }
            }
        }
        assert_eq!(
            balance.balance.total,
            balance.balance.free.checked_add(&reserved).unwrap()
        );
        assert!(!balance.balance.free.is_negative());
    }
}

#[test]
fn what_is_not_free_is_set_aside_for_active_orders() {
    let mut exchange = exchange(NoQueue);
    exchange.open_order(limit("a", Side::Buy, 4, 8));
    assert_backed(&exchange);
    exchange.open_order(limit("b", Side::Sell, 5, 12));
    assert_backed(&exchange);
    exchange.open_order(limit("c", Side::Buy, 2, 7));
    assert_backed(&exchange);
    exchange.apply_market_event(book(&[(13, 2)], &[(8, 3)])).unwrap();
    assert_backed(&exchange);
    exchange.open_order(limit("d", Side::Buy, 5, 9));
    assert_backed(&exchange);
    let key = limit("a", Side::Buy, 1, 1).key;
    exchange.cancel_order(OrderEvent {
        key,
        state: RequestCancel { id: None },
    });
    assert_backed(&exchange);
    assert_eq!(exchange.account.reservation("a"), None);
}

#[test]
fn a_refused_order_leaves_the_account_alone() {
    let mut exchange = exchange(NoQueue);
    exchange.apply_market_event(book(&[], &[(10, 3)])).unwrap();
    let before: Vec<_> = exchange.account.balances().into_iter().cloned().collect();
    let (response, notifications) = exchange.open_order(limit("a", Side::Buy, 2_000, 10));
    assert!(response.state.is_err());
    assert!(notifications.is_none());
    let after: Vec<_> = exchange.account.balances().into_iter().cloned().collect();
    assert_eq!(before, after);
    assert_eq!(exchange.account.orders_open().len(), 0);
}

#[test]
fn order_ids_never_repeat() {
    let mut exchange = exchange(NoQueue);
    let ids: Vec<_> = ["a", "b", "c"]
        .iter()
        .map(|cid| exchange.open_order(limit(cid, Side::Buy, 1, 8)).0.state.unwrap().id)
        .collect();
    assert_eq!(ids, vec!["0".to_string(), "1".to_string(), "2".to_string()]);
    exchange.apply_market_event(book(&[], &[(8, 3)])).unwrap();
    let next = exchange.open_order(limit("d", Side::Sell, 1, 20)).0.state.unwrap();
    assert_eq!(next.id, "6");
}

#[test]
fn the_touch_model_ignores_public_trades() {
    let mut exchange = exchange(NoQueue);
    exchange.open_order(limit("a", Side::Buy, 1, 8));
    assert_eq!(exchange.apply_market_event(trade(7, 5)).unwrap().len(), 0);
    assert_eq!(exchange.account.orders_open().len(), 1);
}

#[test]
fn the_conservative_model_shares_a_trade_in_the_order_of_arrival() {
    let mut exchange = exchange(ConservativeQueue);
    exchange.open_order(limit("a", Side::Buy, 2, 8));
    exchange.open_order(limit("b", Side::Buy, 2, 9));
    exchange.open_order(limit("c", Side::Sell, 2, 10));
    assert_eq!(exchange.apply_market_event(book(&[(10, 9)], &[(7, 9)])).unwrap().len(), 0);
    let sent = exchange.apply_market_event(trade(8, 3)).unwrap();
    assert_eq!(sent.len(), 2);
    let open = exchange.account.orders_open();
    assert_eq!(open.len(), 2);
    assert_eq!(open[0].key.cid, "b");
    assert_eq!(open[0].state.filled_quantity, d(1));
    assert_eq!(open[1].state.filled_quantity, Decimal::zero());
    let trades = exchange.account.trades(at(0));
    assert_eq!(trades[0].price, d(8));
    assert_eq!(trades[1].price, d(9));
    assert_eq!(trades[1].fees.fees, Decimal::new(9, 2));
    assert_backed(&exchange);
}

#[test]
fn an_account_comes_back_from_its_snapshot() {
    let mut exchange = exchange(NoQueue);
    exchange.open_order(limit("a", Side::Buy, 4, 8));
    exchange.open_order(limit("b", Side::Sell, 5, 12));
    let key = limit("b", Side::Buy, 1, 1).key;
    exchange.cancel_order(OrderEvent {
        key,
        state: RequestCancel { id: None },
    });
    let back = AccountState::from(exchange.account_snapshot());
    assert_eq!(back.balances(), exchange.account.balances());
    assert_eq!(back.orders_open(), exchange.account.orders_open());
    assert_eq!(back.orders_cancelled(), exchange.account.orders_cancelled());
    assert_eq!(back.reservation("a"), None);
}

#[test]
fn ordered_times_are_all_accepted() {
    let mut latest = LatestTimes::new();
    for secs in [1, 1, 2, 5] {
        assert!(accept_market_timestamp(&mut latest, ExchangeId::Mock, 3, at(secs)));
    }
    assert!(!accept_market_timestamp(&mut latest, ExchangeId::Mock, 3, at(4)));
    assert!(accept_market_timestamp(&mut latest, ExchangeId::BinanceSpot, 3, at(4)));
    assert!(accept_market_timestamp(&mut latest, ExchangeId::Mock, 3, at(5)));
}

#[test]
fn a_cancellation_with_another_id_is_answered_and_changes_nothing() {
    let mut exchange = exchange(NoQueue);
    let opened = exchange.open_order(limit("a", Side::Buy, 1, 8)).0;
    let cancel = |id: &str| OrderEvent {
        key: limit("a", Side::Buy, 1, 8).key,
        state: RequestCancel {
            id: Some(id.to_string()),
        },
    };
    assert!(exchange.cancel_order(cancel("7")).state.is_err());
    assert!(exchange.account.reservation("a").is_some());
    let cancelled = exchange.cancel_order(cancel("0")).state.unwrap();
    assert_eq!(cancelled.id, opened.state.unwrap().id);
}
