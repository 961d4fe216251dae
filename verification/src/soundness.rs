//! What holds of the account of a paper exchange from its start on.

use crate::account::{
    balances_by_asset, remaining_quantity, reservation_of, AccountView, AssetBalance,
    InstrumentSnapshotView,
};
use crate::backing::{
    law_cancel_keeps_reservations_to_active, law_fill_resting_keeps_reservations_to_active,
    law_open_keeps_reservations_to_active, reserved_for_active,
};
use crate::decimal::Decimal;
use crate::exchange::{
    notifications_view, ExchangeView, MockExecutionConfig, OpenOrderNotifications, OpenRequestView,
};
use crate::instrument::{Instrument, Side};
use crate::laws::{keyed, law_cancel_keeps_names, law_open_keeps_names, lemma_fill_resting_keyed};
use crate::market::{best_first, fill_from, BookView, MockMarketEventKind, QueueModel};
use crate::names::{lemma_put_consistent, views, Named};
use crate::order::{cancel_response_view, open_response_view, Open, Order, OrderState};
use crate::requests::{answers, MockExchangeRequestKind, MockExchangeResponse};
use crate::resting::for_instrument;
use crate::snapshot::orders_of_groups;
use crate::time::Timestamp;
use vstd::prelude::*;

verus! {

/// Every balance, order and reservation comes once and under its own name, and something is set
/// aside only for active orders.
pub open spec fn sound(account: AccountView) -> bool {
    keyed(account) && reserved_for_active(account)
}

/// Balances listed by asset are keyed by their own assets.
proof fn lemma_balances_keyed(balances: Seq<AssetBalance<Seq<char>>>)
    ensures
        balances_by_asset(balances).consistent(),
        forall|asset: Seq<char>| #[trigger]
            balances_by_asset(balances).map.contains_key(asset) ==> balances_by_asset(
                balances,
            ).map[asset].asset == asset,
    decreases balances.len(),
{
    if balances.len() > 0 {
        lemma_balances_keyed(balances.drop_last());
        lemma_put_consistent(
            balances_by_asset(balances.drop_last()),
            balances.last().asset,
            balances.last(),
        );
    }
}

/// Orders of a snapshot are added under their own names.
proof fn lemma_with_orders_sound(
    account: AccountView,
    orders: Seq<Order<Seq<char>, OrderState<Seq<char>>>>,
)
    requires
        keyed(account),
    ensures
        keyed(account.with_orders(orders)),
        account.with_orders(orders).reservations == account.reservations,
    decreases orders.len(),
{
    broadcast use lemma_put_consistent;

    if orders.len() > 0 {
        lemma_with_orders_sound(account, orders.drop_last());
    }
}

/// The orders of every instrument of a snapshot are added under their own names.
proof fn lemma_with_instruments_sound(
    account: AccountView,
    instruments: Seq<InstrumentSnapshotView>,
)
    requires
        keyed(account),
    ensures
        keyed(account.with_instruments(instruments)),
        account.with_instruments(instruments).reservations == account.reservations,
    decreases instruments.len(),
{
    if instruments.len() > 0 {
        lemma_with_instruments_sound(account, instruments.drop_last());
        lemma_with_orders_sound(
            account.with_instruments(instruments.drop_last()),
            instruments.last().orders,
        );
    }
}

/// Recording what active orders set aside keeps the account sound.
proof fn lemma_with_reservations_sound(
    account: AccountView,
    orders: Seq<Order<Seq<char>, Open<Seq<char>>>>,
    instruments: Named<Instrument<Seq<char>>>,
    fees_percent: Decimal,
    time: Timestamp,
)
    requires
        sound(account),
        forall|i: int|
            0 <= i < orders.len() ==> account.orders_open.map.contains_key(
                (#[trigger] orders[i]).key.cid,
            ),
    ensures
        sound(account.with_reservations(orders, instruments, fees_percent, time)),
        account.with_reservations(orders, instruments, fees_percent, time).orders_open
            == account.orders_open,
    decreases orders.len(),
{
    broadcast use lemma_put_consistent;

    if orders.len() > 0 {
        let front = orders.drop_last();
        assert forall|i: int| 0 <= i < front.len() implies account.orders_open.map.contains_key(
            (#[trigger] front[i]).key.cid,
        ) by {
            assert(front[i] == orders[i]);
        }
        lemma_with_reservations_sound(account, front, instruments, fees_percent, time);
        assert(account.orders_open.map.contains_key(orders[orders.len() - 1].key.cid));
        let before = account.with_reservations(front, instruments, fees_percent, time);
        match reservation_of(orders.last(), instruments, fees_percent)->0 {
            Some((asset, amount)) => {
                let stamped = before.with_balance_stamped(asset, time);
                assert(keyed(stamped));
            },
            None => {},
        }
    }
}

/// The account of a new exchange is sound.
pub proof fn law_new_exchange_is_sound(
    config: MockExecutionConfig,
    instruments: Named<Instrument<Seq<char>>>,
)
    ensures
        sound(config.start(instruments).account),
{
    let snapshot = config.initial_state@;
    let base = AccountView {
        balances: balances_by_asset(snapshot.balances),
        orders_open: Named::none(),
        orders_cancelled: Named::none(),
        reservations: Named::none(),
        trades: Seq::empty(),
    };
    lemma_balances_keyed(snapshot.balances);
    assert(keyed(base));
    lemma_with_instruments_sound(base, snapshot.instruments);
    let account = AccountView::of_snapshot(snapshot);
    assert(reserved_for_active(account));
    let orders = account.orders_open.values();
    assert forall|i: int| 0 <= i < orders.len() implies account.orders_open.map.contains_key(
        (#[trigger] orders[i]).key.cid,
    ) by {
        let key = account.orders_open.keys[i];
        assert(account.orders_open.keys.contains(key));
        assert(account.orders_open.map.contains_key(key));
    }
    lemma_with_reservations_sound(
        account,
        orders,
        instruments,
        config.fees_percent,
        Timestamp { secs: 0, nanos: 0 },
    );
}

/// Stamping an account keeps it sound.
pub proof fn law_stamping_keeps_sound(account: AccountView, time: Timestamp)
    requires
        sound(account),
    ensures
        sound(account.stamped(time)),
{
    let after = account.stamped(time);
    assert(after.balances.consistent()) by {
        assert forall|key: Seq<char>| after.balances.keys.contains(key) <==> #[trigger]
        after.balances.map.contains_key(key) by {
            assert(account.balances.keys.contains(key) <==> account.balances.map.contains_key(key));
        }
    }
    assert(after.orders_open.consistent()) by {
        assert forall|key: Seq<char>| after.orders_open.keys.contains(key) <==> #[trigger]
        after.orders_open.map.contains_key(key) by {
            assert(account.orders_open.keys.contains(key)
                <==> account.orders_open.map.contains_key(key));
        }
    }
    assert forall|cid: Seq<char>| #[trigger]
        after.orders_open.map.contains_key(cid) implies after.orders_open.map[cid].key.cid
        == cid by {
        assert(account.orders_open.map.contains_key(cid));
    }
    assert forall|asset: Seq<char>| #[trigger]
        after.balances.map.contains_key(asset) implies after.balances.map[asset].asset == asset by {
        assert(account.balances.map.contains_key(asset));
    }
}

/// A request for a new order keeps the account sound.
pub proof fn law_open_keeps_sound(exchange: ExchangeView, request: OpenRequestView)
    requires
        sound(exchange.account),
    ensures
        exchange.open(request) matches Some(outcome) ==> sound(outcome.exchange.account),
{
    law_open_keeps_names(exchange, request);
    law_open_keeps_reservations_to_active(exchange, request);
}

/// A cancellation keeps the account sound.
pub proof fn law_cancel_keeps_sound(
    account: AccountView,
    cid: Seq<char>,
    id: Option<Seq<char>>,
    time: Timestamp,
)
    requires
        sound(account),
    ensures
        account.cancel(cid, id, time) matches Some(outcome) ==> sound(outcome.0),
{
    law_cancel_keeps_names(account, cid, id, time);
    law_cancel_keeps_reservations_to_active(account, cid, id, time);
}

/// A fill of one order leaves every other order as active as it was.
proof fn lemma_fill_resting_keeps_others(
    exchange: ExchangeView,
    order: Order<Seq<char>, Open<Seq<char>>>,
    quantity: Decimal,
    price: Decimal,
    other: Seq<char>,
)
    requires
        other != order.key.cid,
        exchange.account.orders_open.has(other),
    ensures
        exchange.fill_resting(order, quantity, price) matches Some(filled)
            ==> filled.exchange.account.orders_open.has(other),
{
}

/// The orders are active, each under its own client order id.
pub open spec fn all_active(
    account: AccountView,
    orders: Seq<Order<Seq<char>, Open<Seq<char>>>>,
    from: int,
) -> bool {
    forall|i: int|
        from <= i < orders.len() ==> account.orders_open.map.contains_key(
            (#[trigger] orders[i]).key.cid,
        )
}

/// No two orders share a client order id.
pub open spec fn distinct(orders: Seq<Order<Seq<char>, Open<Seq<char>>>>) -> bool {
    forall|i: int, j: int|
        0 <= i < j < orders.len() ==> (#[trigger] orders[i]).key.cid != (
        #[trigger] orders[j]).key.cid
}

/// A book that fills the first so many of the orders keeps the account sound and the others
/// active.
proof fn lemma_touch_all_sound<Q: QueueModel>(
    exchange: ExchangeView,
    orders: Seq<Order<Seq<char>, Open<Seq<char>>>>,
    count: int,
    book: BookView,
    queue: Q,
)
    requires
        sound(exchange.account),
        0 <= count <= orders.len(),
        distinct(orders),
        all_active(exchange.account, orders, 0),
    ensures
        exchange.touch_all(orders.take(count), book, queue) matches Some(fills) ==> sound(
            fills.exchange.account,
        ) && all_active(fills.exchange.account, orders, count),
    decreases count,
{
    if count > 0 {
        lemma_touch_all_sound(exchange, orders, count - 1, book, queue);
        assert(orders.take(count).drop_last() =~= orders.take(count - 1));
        assert(orders.take(count).last() == orders[count - 1]);
        match exchange.touch_all(orders.take(count - 1), book, queue) {
            Some(before) => {
                let order = orders[count - 1];
                match remaining_quantity(order) {
                    Some(remaining) => match fill_from(
                        order.side,
                        book.facing(order.side),
                        remaining,
                        Some(order.price),
                        queue,
                    ) {
                        Some(Some((quantity, price))) => lemma_fill_in_turn(
                            before.exchange,
                            orders,
                            count - 1,
                            quantity,
                            price,
                        ),
                        _ => {},
                    },
                    None => {},
                }
            },
            None => {},
        }
    }
}

/// A fill of an order in its turn keeps the account sound and the orders behind it active.
proof fn lemma_fill_in_turn(
    exchange: ExchangeView,
    orders: Seq<Order<Seq<char>, Open<Seq<char>>>>,
    turn: int,
    quantity: Decimal,
    price: Decimal,
)
    requires
        sound(exchange.account),
        0 <= turn < orders.len(),
        distinct(orders),
        all_active(exchange.account, orders, turn),
    ensures
        exchange.fill_resting(orders[turn], quantity, price) matches Some(filled) ==> sound(
            filled.exchange.account,
        ) && all_active(filled.exchange.account, orders, turn + 1),
{
    let order = orders[turn];
    assert(exchange.account.orders_open.map.contains_key(orders[turn].key.cid));
    lemma_fill_resting_keyed(exchange, order, quantity, price);
    law_fill_resting_keeps_reservations_to_active(exchange, order, quantity, price);
    match exchange.fill_resting(order, quantity, price) {
        Some(filled) => {
            let active = filled.exchange.account.orders_open.map;
            assert forall|i: int| turn + 1 <= i < orders.len() implies active.contains_key(
                (#[trigger] orders[i]).key.cid,
            ) by {
                assert(orders[turn].key.cid != orders[i].key.cid);
                lemma_fill_resting_keeps_others(
                    exchange,
                    order,
                    quantity,
                    price,
                    orders[i].key.cid,
                );
            }
        },
        None => {},
    }
}

/// A public trade that fills the first so many of the orders keeps the account sound and the
/// others active.
proof fn lemma_trade_all_sound<Q: QueueModel>(
    exchange: ExchangeView,
    orders: Seq<Order<Seq<char>, Open<Seq<char>>>>,
    count: int,
    trade_price: Decimal,
    trade_quantity: Decimal,
    queue: Q,
)
    requires
        sound(exchange.account),
        0 <= count <= orders.len(),
        distinct(orders),
        all_active(exchange.account, orders, 0),
    ensures
        exchange.trade_all(orders.take(count), trade_price, trade_quantity, queue) matches Some(
            outcome,
        ) ==> sound(outcome.0.exchange.account) && all_active(
            outcome.0.exchange.account,
            orders,
            count,
        ),
    decreases count,
{
    if count > 0 {
        lemma_trade_all_sound(exchange, orders, count - 1, trade_price, trade_quantity, queue);
        assert(orders.take(count).drop_last() =~= orders.take(count - 1));
        assert(orders.take(count).last() == orders[count - 1]);
        match exchange.trade_all(orders.take(count - 1), trade_price, trade_quantity, queue) {
            Some((before, left)) => {
                let order = orders[count - 1];
                match remaining_quantity(order) {
                    Some(remaining) => {
                        let quantity = queue.traded(
                            left,
                            remaining,
                            order.side,
                            order.price,
                            trade_price,
                        );
                        lemma_fill_in_turn(
                            before.exchange,
                            orders,
                            count - 1,
                            quantity,
                            order.price,
                        );
                    },
                    None => {},
                }
            },
            None => {},
        }
    }
}

/// The active orders for an instrument are active, and no two share a client order id.
proof fn lemma_active_orders(exchange: ExchangeView, instrument: Seq<char>)
    requires
        keyed(exchange.account),
    ensures
        distinct(exchange.active_orders(instrument)),
        all_active(exchange.account, exchange.active_orders(instrument), 0),
{
    let all = exchange.account.orders_open.values();
    let pred = for_instrument(instrument);
    let keys = exchange.account.orders_open.keys;
    assert forall|i: int| 0 <= i < all.len() implies (#[trigger] all[i]).key.cid == keys[i]
        && exchange.account.orders_open.map.contains_key(all[i].key.cid) by {
        assert(keys.contains(keys[i]));
        assert(exchange.account.orders_open.map.contains_key(keys[i]));
    }
    assert(distinct(all));
    lemma_filter_distinct(all, pred);
    let orders = exchange.active_orders(instrument);
    assert forall|i: int|
        0 <= i < orders.len() implies exchange.account.orders_open.map.contains_key(
        (#[trigger] orders[i]).key.cid,
    ) by {
        assert(orders.contains(orders[i]));
        all.lemma_filter_contains_rev(pred, orders[i]);
        let j = choose|j: int| 0 <= j < all.len() && all[j] == orders[i];
        assert(all[j].key.cid == keys[j]);
    }
}

/// Leaving orders out keeps the others distinct.
proof fn lemma_filter_distinct(
    orders: Seq<Order<Seq<char>, Open<Seq<char>>>>,
    pred: spec_fn(Order<Seq<char>, Open<Seq<char>>>) -> bool,
)
    requires
        distinct(orders),
    ensures
        distinct(orders.filter(pred)),
    decreases orders.len(),
{
    reveal(Seq::filter);
    if orders.len() > 0 {
        let front = orders.drop_last();
        assert forall|i: int, j: int| 0 <= i < j < front.len() implies (
        #[trigger] front[i]).key.cid != (#[trigger] front[j]).key.cid by {
            assert(front[i] == orders[i] && front[j] == orders[j]);
        }
        lemma_filter_distinct(front, pred);
        let kept = front.filter(pred);
        let last = orders.last();
        if pred(last) {
            let after = kept.push(last);
            assert(orders.filter(pred) == after);
            assert forall|i: int, j: int| 0 <= i < j < after.len() implies (
            #[trigger] after[i]).key.cid != (#[trigger] after[j]).key.cid by {
                if j == kept.len() {
                    assert(kept.contains(kept[i]));
                    front.lemma_filter_contains_rev(pred, kept[i]);
                    let k = choose|k: int| 0 <= k < front.len() && front[k] == kept[i];
                    assert(orders[k] == kept[i]);
                    assert(orders[k].key.cid != orders[orders.len() - 1].key.cid);
                } else {
                    assert(after[i] == kept[i] && after[j] == kept[j]);
                }
            }
        } else {
            assert(orders.filter(pred) == kept);
        }
    }
}

/// A market event keeps the account sound.
pub proof fn law_market_keeps_sound<Q: QueueModel>(
    exchange: ExchangeView,
    instrument: Seq<char>,
    time: Timestamp,
    kind: MockMarketEventKind,
    queue: Q,
)
    requires
        sound(exchange.account),
    ensures
        exchange.market(instrument, time, kind, queue) matches Some(fills) ==> sound(
            fills.exchange.account,
        ),
{
    match kind {
        MockMarketEventKind::OrderBook { bids, asks } => {
            let book = BookView {
                bids: best_first(Side::Sell, bids@),
                asks: best_first(Side::Buy, asks@),
            };
            let seen = ExchangeView {
                time,
                books: exchange.books.put(instrument, book),
                ..exchange
            };
            let orders = seen.active_orders(instrument);
            lemma_active_orders(seen, instrument);
            lemma_touch_all_sound(seen, orders, orders.len() as int, book, queue);
            assert(orders.take(orders.len() as int) =~= orders);
        },
        MockMarketEventKind::Trade { price, quantity } => {
            let seen = ExchangeView {
                time,
                last_trades: exchange.last_trades.put(instrument, price),
                ..exchange
            };
            let orders = seen.active_orders(instrument);
            lemma_active_orders(seen, instrument);
            lemma_trade_all_sound(seen, orders, orders.len() as int, price, quantity, queue);
            assert(orders.take(orders.len() as int) =~= orders);
        },
    }
}

/// A request of any kind keeps the account sound.
pub proof fn law_request_keeps_sound(
    before: ExchangeView,
    kind: MockExchangeRequestKind,
    after: ExchangeView,
    response: MockExchangeResponse,
    notifications: Option<OpenOrderNotifications>,
)
    requires
        sound(before.account),
        answers(before, kind, after, response, notifications),
    ensures
        sound(after.account),
{
    match kind {
        MockExchangeRequestKind::CancelOrder(request) => {
            law_cancel_keeps_sound(
                before.account,
                request@.key.cid,
                request@.state.id,
                before.time,
            );
        },
        MockExchangeRequestKind::OpenOrder(request) => {
            law_open_keeps_sound(before, request@);
        },
        _ => {},
    }
}

/// The two answers say the same. The orders of a snapshot may come in another order within their
/// instrument.
pub open spec fn same_answer(first: MockExchangeResponse, second: MockExchangeResponse) -> bool {
    match (first, second) {
        (
            MockExchangeResponse::AccountSnapshot(first),
            MockExchangeResponse::AccountSnapshot(second),
        ) => first.exchange == second.exchange && first@.balances == second@.balances
            && orders_of_groups(first@.instruments).to_multiset() == orders_of_groups(
            second@.instruments,
        ).to_multiset(),
        (MockExchangeResponse::Balances(first), MockExchangeResponse::Balances(second)) => views(
            first@,
        ) == views(second@),
        (
            MockExchangeResponse::OrdersOpen(first),
            MockExchangeResponse::OrdersOpen(second),
        ) => views(first@) == views(second@),
        (MockExchangeResponse::Trades(first), MockExchangeResponse::Trades(second)) => views(first@)
            == views(second@),
        (
            MockExchangeResponse::Cancelled(first),
            MockExchangeResponse::Cancelled(second),
        ) => cancel_response_view(first) == cancel_response_view(second),
        (MockExchangeResponse::Opened(first), MockExchangeResponse::Opened(second)) =>
            open_response_view(first) == open_response_view(second),
        _ => false,
    }
}

/// The same request to the same exchange has the same outcome: the exchange after it, the answer,
/// and what the client is told about an execution.
pub proof fn law_requests_are_deterministic(
    before: ExchangeView,
    kind: MockExchangeRequestKind,
    first: (ExchangeView, MockExchangeResponse, Option<OpenOrderNotifications>),
    second: (ExchangeView, MockExchangeResponse, Option<OpenOrderNotifications>),
)
    requires
        answers(before, kind, first.0, first.1, first.2),
        answers(before, kind, second.0, second.1, second.2),
    ensures
        first.0 == second.0,
        same_answer(first.1, second.1),
        notifications_view(first.2) == notifications_view(second.2),
{
}

} // verus!
