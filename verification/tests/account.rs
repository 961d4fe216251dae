use barter::account::{
    AccountSnapshot, AccountState, AssetBalance, AssetFees, Balance, InstrumentAccountSnapshot,
    Trade,
};
use barter::decimal::Decimal;
use barter::instrument::{ExchangeId, Instrument, Side, Underlying};
use barter::names::NameMap;
use barter::order::{
    ActiveOrderState, ApiError, Cancelled, InactiveOrderState, Open, Order, OrderError, OrderKey,
    OrderKind, OrderState, TimeInForce,
};
use barter::time::Timestamp;

fn d(value: i64) -> Decimal {
    Decimal::from(value)
}

fn at(secs: i64) -> Timestamp {
    Timestamp { secs, nanos: 0 }
}

fn account_with_balances() -> AccountState {
    let mut balances = NameMap::new();
    for (asset, amount) in [("BTC", 100), ("USDT", 10_000)] {
        balances.insert(
            asset.to_string(),
            AssetBalance {
                asset: asset.to_string(),
                balance: Balance {
                    total: Decimal::new(amount, 0),
                    free: Decimal::new(amount, 0),
                },
                time_exchange: at(0),
            },
        );
    }
    AccountState::new(balances, NameMap::new(), NameMap::new(), vec![])
}

fn balances_of(account: &AccountState) -> Vec<AssetBalance<String>> {
    account.balances().into_iter().cloned().collect()
}

fn value_at(account: &AccountState, price: &Decimal) -> Decimal {
    let quote = account.balance("USDT").unwrap().balance.free;
    let base = account.balance("BTC").unwrap().balance.free;
    quote.checked_add(&base.checked_mul(price).unwrap()).unwrap()
}

/// Every quantity, price and side of a fill.
fn fills() -> Vec<(i64, i64, bool)> {
    let mut fills = vec![];
    for quantity in 1..10 {
        for price in 1..100 {
            for buy in [true, false] {
                fills.push((quantity, price, buy));
            }
        }
    }
    fills
}

#[test]
fn fill_conserves_value_at_fill_price() {
    for (quantity, price, buy) in fills() {
        let mut account = account_with_balances();
        let (quantity, price) = (d(quantity), d(price));
        let value = quantity.checked_mul(&price).unwrap();
        let before = value_at(&account, &price);
        if buy {
            account
                .apply_fill_balances("USDT", value, "BTC", quantity, at(1))
                .unwrap();
        } else {
            account
                .apply_fill_balances("BTC", quantity, "USDT", value, at(1))
                .unwrap();
        }
        assert_eq!(value_at(&account, &price), before);
    }
}

#[test]
fn fill_sequence_conserves_value_at_each_changing_fill_price() {
    let fills = fills();
    for first in 0..fills.len() {
        let mut account = account_with_balances();
        for place in 0..first % 7 + 1 {
            let (quantity, price, buy) = fills[(first + place * 541) % fills.len()];
            let (quantity, price) = (d(quantity), d(price));
            let value = quantity.checked_mul(&price).unwrap();
            let before = value_at(&account, &price);
            if buy {
                account
                    .apply_fill_balances("USDT", value, "BTC", quantity, at(1))
                    .unwrap();
            } else {
                account
                    .apply_fill_balances("BTC", quantity, "USDT", value, at(1))
                    .unwrap();
            }
            assert_eq!(value_at(&account, &price), before);
        }
    }
}

#[test]
fn apply_balance_delta_updates_total_and_free() {
    let mut account = account_with_balances();
    let updated = account
        .apply_balance_delta("BTC", Decimal::new(-2, 0), at(1))
        .unwrap();
    assert_eq!(updated.balance.total, Decimal::new(98, 0));
    assert_eq!(updated.balance.free, Decimal::new(98, 0));
}

#[test]
fn insufficient_balance_reports_the_debited_asset_without_mutating_state() {
    let mut account = account_with_balances();
    let before = balances_of(&account);
    let error = account
        .apply_fill_balances("BTC", Decimal::new(101, 0), "USDT", Decimal::one(), at(1))
        .unwrap_err();
    assert!(
        matches!(error, OrderError::Rejected(ApiError::BalanceInsufficient(asset, _)) if asset == "BTC")
    );
    assert_eq!(balances_of(&account), before);
}

#[test]
fn insufficient_balance_is_told_in_words() {
    let mut account = account_with_balances();
    assert_eq!(
        account.apply_balance_delta("BTC", Decimal::new(-1005, 1), at(1)),
        Err(OrderError::Rejected(ApiError::BalanceInsufficient(
            "BTC".to_string(),
            "Available Balance: 100, Required change: 100.5".to_string()
        )))
    );
    assert_eq!(
        account.apply_fill_balances("BTC", d(101), "USDT", d(1), at(1)),
        Err(OrderError::Rejected(ApiError::BalanceInsufficient(
            "BTC".to_string(),
            "Available Balance: 100, Required Balance: 101".to_string()
        )))
    );
}

#[test]
fn unknown_assets_and_negative_changes_are_refused() {
    let mut account = account_with_balances();
    let unknown = OrderError::Rejected(ApiError::AssetInvalid(
        "ETH".to_string(),
        "MockExchange has no configured balance for this asset".to_string(),
    ));
    assert_eq!(
        account.apply_balance_delta("ETH", d(1), at(1)),
        Err(unknown)
    );
    assert!(matches!(
        account.apply_fill_balances("BTC", d(1), "ETH", d(1), at(1)),
        Err(OrderError::Rejected(ApiError::AssetInvalid(asset, _))) if asset == "ETH"
    ));
    assert_eq!(
        account.apply_fill_balances("BTC", d(-1), "USDT", d(1), at(1)),
        Err(OrderError::Rejected(ApiError::OrderRejected(
            "balance changes must be non-negative".to_string()
        )))
    );
}

#[test]
fn cancel_unknown_and_mismatched_orders_are_typed_errors() {
    let mut account = account_with_balances();
    let error = account.cancel_order("missing", None, at(1)).unwrap_err();
    assert!(matches!(
        error,
        OrderError::Rejected(ApiError::OrderRejected(_))
    ));
}

fn resting_order(cid: &str) -> Order<String, Open<String>> {
    Order {
        key: OrderKey {
            exchange: ExchangeId::Mock,
            instrument: "BTCUSDT".to_string(),
            strategy: "strategy-1".to_string(),
            cid: cid.to_string(),
        },
        side: Side::Buy,
        price: Decimal::new(10, 0),
        quantity: Decimal::new(1, 0),
        kind: OrderKind::Limit,
        time_in_force: TimeInForce::GoodUntilCancelled { post_only: false },
        state: Open {
            id: "exchange-1".to_string(),
            time_exchange: at(0),
            filled_quantity: Decimal::zero(),
        },
    }
}

#[test]
fn cancel_order_moves_active_order_to_cancelled() {
    let mut account = account_with_balances();
    let cid = "client-1";
    let order_id = "exchange-1".to_string();
    account.insert_open_order(resting_order(cid));
    let wrong_id = "wrong-id".to_string();
    let mismatch = account
        .cancel_order(cid, Some(&wrong_id), at(1))
        .unwrap_err();
    assert!(matches!(
        mismatch,
        OrderError::Rejected(ApiError::OrderRejected(_))
    ));
    let cancelled = account.cancel_order(cid, Some(&order_id), at(1)).unwrap();
    assert_eq!(cancelled.id, order_id);
    assert!(account.orders_open().iter().all(|order| order.key.cid != cid));
    assert!(account
        .orders_cancelled()
        .iter()
        .any(|order| order.key.cid == cid));

    let inactive = account
        .cancel_order(cid, Some(&order_id), at(2))
        .unwrap_err();
    assert!(matches!(
        inactive,
        OrderError::Rejected(ApiError::OrderRejected(_))
    ));
}

#[test]
fn refused_cancellations_name_the_order() {
    let mut account = account_with_balances();
    account.insert_open_order(resting_order("client-1"));
    assert_eq!(
        account.cancel_order("client-2", None, at(1)),
        Err(OrderError::Rejected(ApiError::OrderRejected(
            "order client-2 is unknown or inactive".to_string()
        )))
    );
    assert_eq!(
        account.cancel_order("client-1", Some(&"7".to_string()), at(1)),
        Err(OrderError::Rejected(ApiError::OrderRejected(
            "order client-1 id does not match".to_string()
        )))
    );
}

#[test]
fn released_reservation_is_free_again() {
    let mut account = account_with_balances();
    account
        .reserve_balance("client-1", "USDT", d(40), at(1))
        .unwrap();
    assert_eq!(
        account.reservation("client-1"),
        Some(&("USDT".to_string(), d(40)))
    );
    let reserved = account.balance("USDT").unwrap().clone();
    assert_eq!(reserved.balance.free, d(9_960));
    assert_eq!(reserved.balance.total, d(10_000));
    assert_eq!(reserved.time_exchange, at(1));
    account.release_reservation("client-1", at(2));
    assert_eq!(account.reservation("client-1"), None);
    let released = account.balance("USDT").unwrap();
    assert_eq!(released.balance.free, d(10_000));
    assert_eq!(released.time_exchange, at(2));
    account.release_reservation("client-1", at(3));
    assert_eq!(account.balance("USDT").unwrap().time_exchange, at(2));
}

#[test]
fn reservations_need_the_asset_and_the_funds() {
    let mut account = account_with_balances();
    assert!(matches!(
        account.reserve_balance("client-1", "ETH", d(1), at(1)),
        Err(OrderError::Rejected(ApiError::AssetInvalid(_, _)))
    ));
    assert!(matches!(
        account.reserve_balance("client-1", "BTC", d(101), at(1)),
        Err(OrderError::Rejected(ApiError::BalanceInsufficient(_, _)))
    ));
    assert_eq!(account.reservation("client-1"), None);
}

#[test]
fn numbers_out_of_range_leave_the_account_alone() {
    let huge = Decimal::from_parts(79_228_162_514_264_337_593_543_950_335, 0).unwrap();
    let mut account = account_with_balances();
    let before = balances_of(&account);
    assert_eq!(account.try_apply_balance_delta("BTC", huge, at(1)), None);
    assert_eq!(
        account.try_apply_fill_balances("BTC", d(1), "USDT", huge, at(1)),
        None
    );
    assert_eq!(balances_of(&account), before);
    assert_eq!(
        account.try_apply_balance_delta("BTC", d(1), at(1)).unwrap().unwrap().balance.total,
        d(101)
    );
}

#[test]
fn time_is_stamped_on_balances_and_active_orders() {
    let mut account = account_with_balances();
    account.insert_open_order(resting_order("client-1"));
    account.update_time_exchange(at(9));
    assert!(account.balances().iter().all(|balance| balance.time_exchange == at(9)));
    assert_eq!(account.orders_open()[0].state.time_exchange, at(9));
}

fn trade(id: &str, secs: i64) -> Trade<String> {
    Trade {
        id: id.to_string(),
        order_id: "7".to_string(),
        instrument: "BTCUSDT".to_string(),
        strategy: "strategy-1".to_string(),
        time_exchange: at(secs),
        side: Side::Buy,
        price: d(10),
        quantity: d(1),
        fees: AssetFees { fees: Decimal::zero() },
    }
}

#[test]
fn trades_are_listed_from_a_time_on() {
    let mut account = account_with_balances();
    account.ack_trade(trade("1", 1));
    account.ack_trade(trade("2", 2));
    account.ack_trade(trade("3", 3));
    let ids: Vec<_> = account.trades(at(2)).iter().map(|trade| trade.id.clone()).collect();
    assert_eq!(ids, vec!["2".to_string(), "3".to_string()]);
}

#[test]
fn balances_and_orders_can_be_changed_in_place() {
    let mut account = account_with_balances();
    account.balance_mut("BTC").unwrap().balance.free = d(5);
    assert_eq!(account.balance("BTC").unwrap().balance.free, d(5));
    assert!(account.balance_mut("ETH").is_none());
    account.insert_open_order(resting_order("client-1"));
    account.open_order_mut("client-1").unwrap().price = d(11);
    assert_eq!(account.open_order("client-1").unwrap().price, d(11));
    assert_eq!(account.remove_filled_order("client-1").unwrap().price, d(11));
    assert!(account.remove_filled_order("client-1").is_none());
}

#[test]
fn a_snapshot_gives_active_and_cancelled_orders_back() {
    let active = resting_order("client-1");
    let cancelled = resting_order("client-2");
    let filled = resting_order("client-3");
    let with_state = |order: Order<String, Open<String>>, state| Order {
        key: order.key,
        side: order.side,
        price: order.price,
        quantity: order.quantity,
        kind: order.kind,
        time_in_force: order.time_in_force,
        state,
    };
    let open = active.state.clone();
    let account = AccountState::from(AccountSnapshot {
        exchange: ExchangeId::Mock,
        balances: balances_of(&account_with_balances()),
        instruments: vec![InstrumentAccountSnapshot {
            instrument: "BTCUSDT".to_string(),
            orders: vec![
                with_state(active, OrderState::Active(ActiveOrderState::Open(open))),
                with_state(
                    cancelled,
                    OrderState::Inactive(InactiveOrderState::Cancelled(Cancelled {
                        id: "exchange-2".to_string(),
                        time_exchange: at(1),
                    })),
                ),
                with_state(
                    filled,
                    OrderState::Inactive(InactiveOrderState::FullyFilled),
                ),
            ],
        }],
    });
    assert_eq!(account.orders_open().len(), 1);
    assert_eq!(account.orders_open()[0].key.cid, "client-1");
    assert_eq!(account.orders_cancelled().len(), 1);
    assert_eq!(account.orders_cancelled()[0].key.cid, "client-2");
    assert_eq!(account.balances().len(), 2);
}

#[test]
fn restoring_records_what_orders_set_aside_and_leaves_what_is_free() {
    let mut account = account_with_balances();
    account.insert_open_order(resting_order("client-1"));
    let mut instruments = NameMap::new();
    instruments.insert(
        "BTCUSDT".to_string(),
        Instrument::spot(
            ExchangeId::Mock,
            "BTCUSDT".to_string(),
            Underlying {
                base: "BTC".to_string(),
                quote: "USDT".to_string(),
            },
            None,
        ),
    );
    account.restore_reservations(&instruments, Decimal::new(1, 2), at(3));
    assert_eq!(
        account.reservation("client-1"),
        Some(&("USDT".to_string(), Decimal::new(1010, 2)))
    );
    assert_eq!(account.balance("USDT").unwrap().balance.free, d(10_000));
    assert_eq!(account.balance("USDT").unwrap().time_exchange, at(3));
    assert_eq!(account.balance("BTC").unwrap().time_exchange, at(0));
}
