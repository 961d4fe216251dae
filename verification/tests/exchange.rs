use barter::account::{
    AccountSnapshot, AccountState, AssetBalance, Balance, InstrumentAccountSnapshot,
};
use barter::decimal::Decimal;
use barter::exchange::{MockExchange, MockExecutionConfig};
use barter::instrument::{ExchangeId, Instrument, InstrumentSpec, Side, Underlying};
use barter::market::{
    ConservativeQueue, FixedLatency, LatencyModel, MockMarketEvent, MockMarketEventKind,
    MockMarketLevel, MockOrderBook, NoQueue, QueueModel,
};
use barter::names::NameMap;
use barter::order::{
    ActiveOrderState, ApiError, InactiveOrderState, OrderError, OrderEvent, OrderKey, OrderKind,
    OrderRequestOpen, OrderState, RequestCancel, RequestOpen, TimeInForce,
};
use barter::requests::{
    notification_events, AccountEventKind, MockExchangeRequest, MockExchangeRequestKind,
    MockExchangeResponse,
};
use barter::time::Timestamp;

fn d(value: i64) -> Decimal {
    Decimal::from(value)
}

fn epoch() -> Timestamp {
    Timestamp::epoch()
}

fn config() -> MockExecutionConfig {
    let balances = [("BTC", 100), ("USDT", 10_000)]
        .into_iter()
        .map(|(asset, amount)| AssetBalance {
            asset: asset.to_string(),
            balance: Balance {
                total: Decimal::new(amount, 0),
                free: Decimal::new(amount, 0),
            },
            time_exchange: epoch(),
        })
        .collect();
    MockExecutionConfig {
        mocked_exchange: ExchangeId::Mock,
        initial_state: AccountSnapshot {
            exchange: ExchangeId::Mock,
            balances,
            instruments: vec![InstrumentAccountSnapshot {
                instrument: "BTCUSDT".to_string(),
                orders: vec![],
            }],
        },
        latency_ms: 0,
        fees_percent: Decimal::zero(),
    }
}

fn instruments(spec: Option<InstrumentSpec>) -> NameMap<Instrument<String>> {
    let mut instruments = NameMap::new();
    instruments.insert(
        "BTCUSDT".to_string(),
        Instrument::spot(
            ExchangeId::Mock,
            "BTCUSDT".to_string(),
            Underlying {
                base: "BTC".to_string(),
                quote: "USDT".to_string(),
            },
            spec,
        ),
    );
    instruments
}

fn exchange() -> MockExchange<FixedLatency, NoQueue> {
    MockExchange::new(config(), instruments(None))
}

fn request(side: Side, quantity: i64, price: i64) -> OrderRequestOpen {
    OrderEvent {
        key: OrderKey {
            exchange: ExchangeId::Mock,
            instrument: "BTCUSDT".to_string(),
            strategy: "test".to_string(),
            cid: format!("cid-{quantity}-{price}"),
        },
        state: RequestOpen {
            side,
            price: Decimal::new(price, 0),
            quantity: Decimal::new(quantity, 0),
            kind: OrderKind::Market,
            time_in_force: TimeInForce::ImmediateOrCancel,
        },
    }
}

fn limit(side: Side, quantity: i64, price: i64, time_in_force: TimeInForce) -> OrderRequestOpen {
    let mut request = request(side, quantity, price);
    request.state.kind = OrderKind::Limit;
    request.state.time_in_force = time_in_force;
    request
}

fn good_until_cancelled() -> TimeInForce {
    TimeInForce::GoodUntilCancelled { post_only: false }
}

fn level(price: i64, quantity: i64) -> MockMarketLevel {
    MockMarketLevel {
        price: d(price),
        quantity: d(quantity),
    }
}

fn book_event(bids: Vec<MockMarketLevel>, asks: Vec<MockMarketLevel>) -> MockMarketEvent {
    MockMarketEvent {
        instrument: "BTCUSDT".to_string(),
        time_exchange: epoch(),
        kind: MockMarketEventKind::OrderBook { bids, asks },
    }
}

fn trade_event(price: i64, quantity: i64) -> MockMarketEvent {
    MockMarketEvent {
        instrument: "BTCUSDT".to_string(),
        time_exchange: epoch(),
        kind: MockMarketEventKind::Trade {
            price: d(price),
            quantity: d(quantity),
        },
    }
}

fn balance<L: LatencyModel, Q: QueueModel>(exchange: &MockExchange<L, Q>, asset: &str) -> Balance {
    exchange.account.balance(asset).unwrap().balance
}

fn balances<L, Q>(exchange: &MockExchange<L, Q>) -> Vec<AssetBalance<String>> {
    exchange.account.balances().into_iter().cloned().collect()
}

#[test]
fn conservative_queue_fills_only_on_public_trade() {
    let mut exchange =
        MockExchange::new_with_models(config(), instruments(None), FixedLatency, ConservativeQueue);
    let (response, _) = exchange.open_order(limit(Side::Buy, 1, 8, good_until_cancelled()));
    assert!(response.state.is_ok());
    exchange
        .apply_market_event(book_event(vec![], vec![level(8, 1)]))
        .unwrap();
    assert_eq!(
        exchange.account.orders_open()[0].state.filled_quantity,
        Decimal::zero()
    );
    exchange.apply_market_event(trade_event(8, 1)).unwrap();
    assert_eq!(exchange.account.orders_open().len(), 0);
}

#[test]
fn limit_orders_rest_or_fill_against_l2_and_ioc_does_not_rest() {
    let mut exchange = exchange();
    exchange.market_books.insert(
        "BTCUSDT".to_string(),
        MockOrderBook {
            asks: vec![level(10, 2)],
            bids: vec![level(9, 2)],
        },
    );

    let total_before = balance(&exchange, "USDT").total;
    let (response, notifications) =
        exchange.open_order(limit(Side::Buy, 1, 8, good_until_cancelled()));
    assert!(response.state.is_ok());
    assert_eq!(balance(&exchange, "USDT").total, total_before);
    assert_eq!(balance(&exchange, "USDT").free, d(9_992));
    assert_eq!(
        exchange.account.reservation(&response.key.cid),
        Some(&("USDT".to_string(), d(8)))
    );
    assert_eq!(
        response.state.as_ref().unwrap().filled_quantity,
        Decimal::zero()
    );
    assert!(notifications.is_none());
    assert_eq!(exchange.account.orders_open().len(), 1);

    exchange
        .apply_market_event(book_event(vec![], vec![level(7, 1)]))
        .unwrap();
    assert_eq!(exchange.account.orders_open().len(), 0);

    let (response, _) =
        exchange.open_order(limit(Side::Buy, 1, 6, TimeInForce::ImmediateOrCancel));
    assert!(response.state.is_err());
    assert_eq!(exchange.account.orders_open().len(), 0);

    let (response, notifications) =
        exchange.open_order(limit(Side::Buy, 1, 7, TimeInForce::ImmediateOrCancel));
    assert_eq!(response.state.as_ref().unwrap().filled_quantity, d(1));
    assert_eq!(response.price, d(7));
    assert!(notifications.is_some());
}

#[test]
fn duplicate_active_client_order_id_is_rejected_without_leaking_reservation() {
    let mut exchange = exchange();
    let resting = limit(Side::Buy, 1, 8, good_until_cancelled());
    let duplicate = resting.clone();

    let (accepted, _) = exchange.open_order(resting);
    assert!(accepted.state.is_ok());
    let balance_before = balance(&exchange, "USDT");

    let (rejected, notifications) = exchange.open_order(duplicate);
    assert!(matches!(
        rejected.state,
        Err(OrderError::Rejected(ApiError::OrderRejected(_)))
    ));
    assert!(notifications.is_none());
    assert_eq!(exchange.account.orders_open().len(), 1);
    assert_eq!(balance(&exchange, "USDT"), balance_before);
    assert_eq!(
        exchange.account.reservation(&accepted.key.cid),
        Some(&("USDT".to_string(), d(8)))
    );
}

#[test]
fn restored_active_order_cancel_releases_reservation() {
    let mut source = exchange();
    let (accepted, _) = source.open_order(limit(Side::Buy, 1, 8, good_until_cancelled()));
    let cid = accepted.key.cid.clone();
    let snapshot = source.account_snapshot();

    let mut restored = AccountState::from(snapshot);
    restored.restore_reservations(&source.instruments, source.fees_percent, epoch());
    assert_eq!(
        restored.reservation(&cid),
        Some(&("USDT".to_string(), d(8)))
    );
    let balance_before_cancel = restored.balance("USDT").unwrap().balance;
    let cancelled = restored.cancel_order(&cid, None, epoch()).unwrap();
    assert_eq!(cancelled.id, accepted.state.unwrap().id);
    assert_eq!(restored.reservation(&cid), None);
    assert_eq!(
        restored.balance("USDT").unwrap().balance.free,
        balance_before_cancel.free.checked_add(&d(8)).unwrap()
    );
}

#[test]
fn sell_side_resting_order_reserves_base_and_cancel_restores_it() {
    let mut exchange = exchange();
    let resting = limit(Side::Sell, 3, 11, good_until_cancelled());
    let key = resting.key.clone();
    let (accepted, notifications) = exchange.open_order(resting);
    assert!(accepted.state.is_ok());
    assert!(notifications.is_none());
    assert_eq!(
        exchange.account.reservation(&key.cid),
        Some(&("BTC".to_string(), d(3)))
    );
    assert_eq!(
        balance(&exchange, "BTC"),
        Balance {
            total: d(100),
            free: d(97),
        }
    );

    let cancelled = exchange.cancel_order(OrderEvent {
        key,
        state: RequestCancel { id: None },
    });
    assert!(cancelled.state.is_ok());
    assert_eq!(
        balance(&exchange, "BTC"),
        Balance {
            total: d(100),
            free: d(100),
        }
    );
}

#[test]
fn partial_resting_fill_adjusts_reservation_and_cancel_releases_remainder() {
    let mut exchange = exchange();
    exchange.market_books.insert(
        "BTCUSDT".to_string(),
        MockOrderBook {
            asks: vec![level(10, 2)],
            bids: vec![],
        },
    );

    let resting = limit(Side::Buy, 2, 8, good_until_cancelled());
    let key = resting.key.clone();
    let (response, notifications) = exchange.open_order(resting);
    assert!(response.state.is_ok());
    assert!(notifications.is_none());
    assert_eq!(
        exchange.account.reservation(&key.cid),
        Some(&("USDT".to_string(), d(16)))
    );
    assert_eq!(
        balance(&exchange, "USDT"),
        Balance {
            total: d(10_000),
            free: d(9_984),
        }
    );

    exchange
        .apply_market_event(book_event(vec![], vec![level(7, 1)]))
        .unwrap();
    assert_eq!(
        exchange.account.reservation(&key.cid),
        Some(&("USDT".to_string(), d(8)))
    );
    assert_eq!(
        balance(&exchange, "USDT"),
        Balance {
            total: d(9_993),
            free: d(9_985),
        }
    );

    let cancelled = exchange.cancel_order(OrderEvent {
        key,
        state: RequestCancel { id: None },
    });
    assert!(cancelled.state.is_ok());
    assert!(exchange.account.reservation(&cancelled.key.cid).is_none());
    assert_eq!(
        balance(&exchange, "USDT"),
        Balance {
            total: d(9_993),
            free: d(9_993),
        }
    );
}

#[test]
fn open_order_updates_both_assets_for_buy_and_sell() {
    let mut exchange = exchange();
    exchange.fees_percent = Decimal::new(1, 2);
    exchange.market_books.insert(
        "BTCUSDT".to_string(),
        MockOrderBook {
            asks: vec![level(10, 10)],
            bids: vec![level(10, 10)],
        },
    );
    let (buy, notifications) = exchange.open_order(request(Side::Buy, 2, 10));
    assert!(buy.state.is_ok());
    let notifications = notifications.expect("accepted fill emits notifications");
    assert_eq!(notifications.balances.len(), 2);
    assert!(notifications.balances.iter().any(|balance| {
        balance.0.asset == "USDT" && balance.0.balance.free == Decimal::new(99798, 1)
    }));
    assert!(notifications.balances.iter().any(|balance| {
        balance.0.asset == "BTC" && balance.0.balance.free == Decimal::new(102, 0)
    }));
    assert_eq!(balance(&exchange, "USDT").free, Decimal::new(99798, 1));
    assert_eq!(balance(&exchange, "BTC").free, Decimal::new(102, 0));
    let (sell, _) = exchange.open_order(request(Side::Sell, 1, 10));
    assert!(sell.state.is_ok());
    assert_eq!(balance(&exchange, "BTC").free, Decimal::new(101, 0));
    assert_eq!(balance(&exchange, "USDT").free, Decimal::new(998970, 2));
}

#[test]
fn run_returns_typed_cancel_error_for_unknown_order() {
    let mut exchange = exchange();
    let cancel = OrderEvent {
        key: request(Side::Buy, 1, 1).key,
        state: RequestCancel { id: None },
    };
    let (response, notifications) = exchange
        .handle_request(MockExchangeRequest {
            time_request: epoch(),
            kind: MockExchangeRequestKind::CancelOrder(cancel),
        })
        .unwrap();
    let MockExchangeResponse::Cancelled(response) = response else {
        panic!("expected the answer to a cancellation");
    };
    assert!(matches!(
        response.state,
        Err(OrderError::Rejected(ApiError::OrderRejected(_)))
    ));
    assert!(notifications.is_none());
}

#[test]
fn non_positive_price_is_rejected_without_mutating_balances() {
    for price in [0, -1] {
        let mut exchange = exchange();
        let before = balances(&exchange);
        let mut bad = request(Side::Sell, 1, 1);
        bad.state.price = Decimal::new(price, 0);
        let (response, notifications) = exchange.open_order(bad);
        assert!(matches!(
            response.state,
            Err(OrderError::Rejected(ApiError::OrderRejected(_)))
        ));
        assert!(notifications.is_none());
        assert_eq!(balances(&exchange), before);
    }
}

fn rejection<T>(state: Result<T, OrderError<String>>) -> String {
    match state {
        Err(OrderError::Rejected(ApiError::OrderRejected(message))) => message,
        _ => panic!("expected a rejection"),
    }
}

#[test]
fn refusals_say_why() {
    let mut exchange = exchange();
    let (response, _) = exchange.open_order(request(Side::Buy, 1, 8));
    assert_eq!(
        rejection(response.state),
        "market data is unavailable for this instrument"
    );
    exchange
        .apply_market_event(book_event(vec![level(9, 1)], vec![level(10, 1)]))
        .unwrap();
    let mut all = request(Side::Buy, 2, 8);
    all.state.time_in_force = TimeInForce::FillOrKill;
    assert_eq!(
        rejection(exchange.open_order(all).0.state),
        "market fill-or-kill was only partially executable"
    );
    let post_only = TimeInForce::GoodUntilCancelled { post_only: true };
    assert_eq!(
        rejection(exchange.open_order(limit(Side::Sell, 1, 9, post_only)).0.state),
        "post-only limit order would cross the book"
    );
    assert_eq!(
        rejection(
            exchange
                .open_order(limit(Side::Buy, 1, 9, TimeInForce::FillOrKill))
                .0
                .state
        ),
        "limit order did not cross the available L2 book"
    );
    assert_eq!(
        rejection(
            exchange
                .open_order(limit(Side::Buy, 2, 10, TimeInForce::FillOrKill))
                .0
                .state
        ),
        "limit fill-or-kill was only partially executable"
    );
    let mut unknown = request(Side::Buy, 1, 8);
    unknown.key.instrument = "ETHUSDT".to_string();
    assert_eq!(
        exchange.open_order(unknown).0.state,
        Err(OrderError::Rejected(ApiError::InstrumentInvalid(
            "ETHUSDT".to_string(),
            "MockExchange is not set-up for managing: ETHUSDT".to_string()
        )))
    );
    assert_eq!(
        exchange.open_order(request(Side::Sell, 200, 8)).0.state.unwrap().filled_quantity,
        d(1)
    );
    let (response, _) = exchange.open_order(limit(Side::Buy, 2_000, 9, good_until_cancelled()));
    assert_eq!(
        response.state,
        Err(OrderError::Rejected(ApiError::BalanceInsufficient(
            "USDT".to_string(),
            "Available Balance: 10009, Required Balance: 18000".to_string()
        )))
    );
}

#[test]
fn market_orders_walk_levels_or_take_the_last_trade() {
    let mut exchange = exchange();
    exchange.apply_market_event(trade_event(12, 1)).unwrap();
    let (response, notifications) = exchange.open_order(request(Side::Buy, 3, 8));
    assert_eq!(response.price, d(12));
    let trade = notifications.unwrap().trade.unwrap();
    assert_eq!((trade.price, trade.quantity), (d(12), d(3)));
    exchange
        .apply_market_event(book_event(vec![], vec![level(12, 3), level(10, 2)]))
        .unwrap();
    let (response, _) = exchange.open_order(request(Side::Buy, 5, 8));
    assert_eq!(response.price, Decimal::new(112, 1));
}

#[test]
fn immediate_or_cancel_remainder_has_expired() {
    let mut exchange = exchange();
    exchange
        .apply_market_event(book_event(vec![], vec![level(10, 1)]))
        .unwrap();
    let (response, notifications) =
        exchange.open_order(limit(Side::Buy, 3, 10, TimeInForce::ImmediateOrCancel));
    assert_eq!(response.state.unwrap().filled_quantity, d(1));
    assert_eq!(
        notifications.unwrap().order.unwrap().0.state,
        OrderState::Inactive(InactiveOrderState::Expired)
    );
    assert_eq!(exchange.account.orders_open().len(), 0);
}

#[test]
fn what_is_left_of_a_market_order_follows_its_time_in_force() {
    for time_in_force in [good_until_cancelled(), TimeInForce::GoodUntilEndOfDay] {
        let mut exchange = exchange();
        exchange
            .apply_market_event(book_event(vec![], vec![level(10, 1)]))
            .unwrap();
        let mut market = request(Side::Buy, 3, 12);
        market.state.time_in_force = time_in_force;
        let (response, notifications) = exchange.open_order(market);
        assert_eq!(response.state.unwrap().filled_quantity, d(1));
        let sent = notifications.unwrap();
        assert_eq!(sent.trade.unwrap().price, d(10));
        assert!(matches!(
            sent.order.unwrap().0.state,
            OrderState::Active(ActiveOrderState::Open(open)) if open.filled_quantity == d(1)
        ));
        assert_eq!(
            exchange.account.reservation("cid-3-12"),
            Some(&("USDT".to_string(), d(24)))
        );
        let sent = exchange
            .apply_market_event(book_event(vec![], vec![level(11, 5)]))
            .unwrap();
        assert_eq!(
            sent.into_iter().next().unwrap().order.unwrap().0.state,
            OrderState::Inactive(InactiveOrderState::FullyFilled)
        );
        assert_eq!(exchange.account.orders_open().len(), 0);
        assert_eq!(exchange.account.reservation("cid-3-12"), None);
        assert_eq!(
            balance(&exchange, "USDT"),
            Balance {
                total: d(9_968),
                free: d(9_968),
            }
        );
    }

    let mut exchange = exchange();
    exchange
        .apply_market_event(book_event(vec![], vec![level(10, 1)]))
        .unwrap();
    let (_, notifications) = exchange.open_order(request(Side::Buy, 3, 12));
    assert_eq!(
        notifications.unwrap().order.unwrap().0.state,
        OrderState::Inactive(InactiveOrderState::Expired)
    );
    assert_eq!(exchange.account.orders_open().len(), 0);
}

#[test]
fn a_crossing_limit_order_rests_with_what_is_left() {
    let mut exchange = exchange();
    exchange
        .apply_market_event(book_event(vec![], vec![level(10, 1)]))
        .unwrap();
    let (response, notifications) =
        exchange.open_order(limit(Side::Buy, 3, 10, good_until_cancelled()));
    assert_eq!(response.state.unwrap().filled_quantity, d(1));
    assert_eq!(response.key.cid, "cid-3-10");
    let order = notifications.unwrap().order.unwrap().0;
    assert!(matches!(
        order.state,
        OrderState::Active(ActiveOrderState::Open(open)) if open.filled_quantity == d(1)
    ));
    assert_eq!(
        exchange.account.reservation("cid-3-10"),
        Some(&("USDT".to_string(), d(20)))
    );
    assert_eq!(
        balance(&exchange, "USDT"),
        Balance {
            total: d(9_990),
            free: d(9_970),
        }
    );
    let sent = exchange
        .apply_market_event(book_event(vec![], vec![level(9, 5)]))
        .unwrap();
    assert_eq!(sent.len(), 1);
    let sent = sent.into_iter().next().unwrap();
    assert_eq!(
        sent.order.unwrap().0.state,
        OrderState::Inactive(InactiveOrderState::FullyFilled)
    );
    assert_eq!(sent.balances[0].0.balance.free, d(9_972));
    assert_eq!(sent.trade.unwrap().quantity, d(2));
    assert_eq!(
        balance(&exchange, "USDT"),
        Balance {
            total: d(9_972),
            free: d(9_972),
        }
    );
    assert_eq!(exchange.account.trades(epoch()).len(), 1);
}

#[test]
fn the_same_requests_give_the_same_account() {
    let play = || {
        let mut exchange = exchange();
        exchange
            .apply_market_event(book_event(vec![level(9, 4)], vec![level(10, 4)]))
            .unwrap();
        exchange.open_order(limit(Side::Buy, 3, 8, good_until_cancelled()));
        exchange.open_order(limit(Side::Sell, 2, 12, good_until_cancelled()));
        exchange.open_order(request(Side::Buy, 1, 10));
        exchange
            .apply_market_event(book_event(vec![level(13, 1)], vec![level(14, 4)]))
            .unwrap();
        let open: Vec<_> = exchange.account.orders_open().into_iter().cloned().collect();
        (balances(&exchange), open)
    };
    assert_eq!(play(), play());
}

#[test]
fn trading_rules_are_enforced_where_they_are_known() {
    let rules = InstrumentSpec {
        price_min: d(2),
        tick_size: Decimal::new(5, 1),
        quantity_min: d(2),
        quantity_increment: d(2),
        notional_min: d(10),
    };
    let open = |price: Decimal, quantity: i64| {
        let mut exchange = MockExchange::new(config(), instruments(Some(rules)));
        let mut resting = limit(Side::Buy, quantity, 1, good_until_cancelled());
        resting.state.price = price;
        exchange.open_order(resting).0.state
    };
    assert_eq!(rejection(open(d(1), 20)), "price is below the minimum price");
    assert_eq!(
        rejection(open(Decimal::new(23, 1), 20)),
        "price is not a multiple of the tick size"
    );
    assert_eq!(
        rejection(open(d(20), 1)),
        "quantity is below the minimum quantity"
    );
    assert_eq!(
        rejection(open(d(20), 3)),
        "quantity is not a multiple of the quantity increment"
    );
    assert_eq!(
        rejection(open(d(2), 4)),
        "order value is below the minimum notional"
    );
    assert!(open(Decimal::new(25, 1), 4).is_ok());
}

#[test]
fn numbers_out_of_range_leave_the_exchange_alone() {
    let huge = Decimal::from_parts(79_228_162_514_264_337_593_543_950_335, 0).unwrap();
    let mut exchange = exchange();
    let mut resting = limit(Side::Buy, 2, 8, good_until_cancelled());
    resting.state.price = huge;
    assert!(exchange.try_open_order(resting).is_none());
    assert_eq!(exchange.order_sequence, 0);
    assert_eq!(balance(&exchange, "USDT").free, d(10_000));
    let (response, _) = exchange
        .try_open_order(limit(Side::Buy, 2, 8, good_until_cancelled()))
        .unwrap();
    assert_eq!(response.state.unwrap().id, "0");
    let cancelled = exchange
        .try_cancel_order(OrderEvent {
            key: response.key,
            state: RequestCancel {
                id: Some("0".to_string()),
            },
        })
        .unwrap();
    assert_eq!(cancelled.state.unwrap().id, "0");
    assert!(MockExchange::try_new(config(), instruments(None)).is_some());
    assert!(MockExchange::try_new_with_models(
        config(),
        instruments(None),
        FixedLatency,
        ConservativeQueue
    )
    .is_some());
}

#[test]
fn snapshots_group_orders_by_instrument() {
    let mut names = instruments(None);
    names.insert(
        "ADAUSDT".to_string(),
        Instrument::spot(
            ExchangeId::Mock,
            "ADAUSDT".to_string(),
            Underlying {
                base: "ADA".to_string(),
                quote: "USDT".to_string(),
            },
            None,
        ),
    );
    let mut exchange = MockExchange::new(config(), names);
    for (cid, instrument) in [("a", "BTCUSDT"), ("b", "ADAUSDT"), ("c", "BTCUSDT")] {
        let mut resting = limit(Side::Buy, 1, 8, good_until_cancelled());
        resting.key.cid = cid.to_string();
        resting.key.instrument = instrument.to_string();
        assert!(exchange.open_order(resting).0.state.is_ok());
    }
    let mut key = request(Side::Buy, 1, 8).key;
    key.cid = "c".to_string();
    exchange.cancel_order(OrderEvent {
        key,
        state: RequestCancel { id: None },
    });
    let snapshot = exchange.account_snapshot();
    assert_eq!(snapshot.instruments.len(), 2);
    assert_eq!(snapshot.instruments[0].instrument, "ADAUSDT");
    assert_eq!(snapshot.instruments[0].orders.len(), 1);
    assert_eq!(snapshot.instruments[0].orders[0].key.cid, "b");
    assert_eq!(snapshot.instruments[1].instrument, "BTCUSDT");
    let mut cids: Vec<_> = snapshot.instruments[1]
        .orders
        .iter()
        .map(|order| order.key.cid.clone())
        .collect();
    cids.sort();
    assert_eq!(cids, vec!["a".to_string(), "c".to_string()]);
    assert_eq!(snapshot.balances, balances(&exchange));
}

#[test]
fn requests_are_answered_at_the_time_they_arrive() {
    let mut exchange = exchange();
    exchange.latency_ms = 3_001;
    let ask = |exchange: &mut MockExchange<FixedLatency, NoQueue>, kind| {
        exchange
            .handle_request(MockExchangeRequest {
                time_request: Timestamp {
                    secs: 10,
                    nanos: 700_000_000,
                },
                kind,
            })
            .unwrap()
    };
    let resting = limit(Side::Buy, 1, 8, good_until_cancelled());
    let (response, _) = ask(&mut exchange, MockExchangeRequestKind::OpenOrder(resting));
    let arrived = Timestamp {
        secs: 12,
        nanos: 200_000_000,
    };
    assert_eq!(exchange.time_exchange(), arrived);
    let MockExchangeResponse::Opened(response) = response else {
        panic!("expected the answer to a request for an order");
    };
    assert_eq!(response.state.unwrap().time_exchange, arrived);
    let (response, _) = ask(
        &mut exchange,
        MockExchangeRequestKind::FetchBalances {
            assets: vec!["USDT".to_string(), "ETH".to_string()],
        },
    );
    let MockExchangeResponse::Balances(found) = response else {
        panic!("expected balances");
    };
    assert_eq!(found.len(), 1);
    assert_eq!(found[0].balance.free, d(9_992));
    assert_eq!(found[0].time_exchange, arrived);
    let (response, _) = ask(
        &mut exchange,
        MockExchangeRequestKind::FetchOrdersOpen {
            instruments: vec!["BTCUSDT".to_string()],
        },
    );
    assert!(matches!(response, MockExchangeResponse::OrdersOpen(orders) if orders.len() == 1));
    let (response, _) = ask(
        &mut exchange,
        MockExchangeRequestKind::FetchOrdersOpen {
            instruments: vec!["ETHUSDT".to_string()],
        },
    );
    assert!(matches!(response, MockExchangeResponse::OrdersOpen(orders) if orders.is_empty()));
    let (response, _) = ask(&mut exchange, MockExchangeRequestKind::FetchAccountSnapshot);
    assert!(matches!(
        response,
        MockExchangeResponse::AccountSnapshot(snapshot) if snapshot.instruments.len() == 1
    ));
}

#[test]
fn executions_are_recorded_and_told_in_order() {
    let mut exchange = exchange();
    exchange.apply_market_event(trade_event(10, 1)).unwrap();
    let (_, notifications) = exchange
        .handle_request(MockExchangeRequest {
            time_request: epoch(),
            kind: MockExchangeRequestKind::OpenOrder(request(Side::Buy, 1, 10)),
        })
        .unwrap();
    let (response, _) = exchange
        .handle_request(MockExchangeRequest {
            time_request: epoch(),
            kind: MockExchangeRequestKind::FetchTrades {
                time_since: epoch(),
            },
        })
        .unwrap();
    assert!(matches!(response, MockExchangeResponse::Trades(trades) if trades.len() == 1));
    let events = notification_events(ExchangeId::Mock, notifications.unwrap());
    assert_eq!(events.len(), 4);
    assert!(matches!(&events[0].kind, AccountEventKind::BalanceSnapshot(b) if b.0.asset == "USDT"));
    assert!(matches!(&events[1].kind, AccountEventKind::BalanceSnapshot(b) if b.0.asset == "BTC"));
    assert!(matches!(&events[2].kind, AccountEventKind::Trade(_)));
    assert!(matches!(&events[3].kind, AccountEventKind::OrderSnapshot(_)));
}

#[test]
fn a_time_that_cannot_be_held_stays() {
    let mut exchange = exchange();
    exchange.latency_ms = 10_000;
    let last = Timestamp {
        secs: 8_210_266_876_799,
        nanos: 0,
    };
    exchange.update_time_exchange(last);
    assert_eq!(exchange.time_exchange(), last);
    exchange.update_time_exchange(Timestamp { secs: -1, nanos: 5 });
    assert_eq!(exchange.time_exchange(), Timestamp { secs: 4, nanos: 5 });
}
