//! What a market event may do to orders, and what it leaves alone.

use crate::account::{AccountView, AssetBalance};
use crate::decimal::Decimal;
use crate::exchange::{ExchangeView, NotificationsView};
use crate::instrument::Side;
use crate::laws::keyed;
use crate::market::{fill_from, BookView, MockMarketEventKind, QueueModel};
use crate::matching::{settlement, Settlement};
use crate::order::{Open, Order};
use crate::resting::{for_instrument, Filled, Fills};
use crate::time::Timestamp;
use vstd::prelude::*;

verus! {

/// An active order.
pub type ActiveOrder = Order<Seq<char>, Open<Seq<char>>>;

/// Nothing has happened to the order: it is active or not as before, as much of it is filled, and
/// as much is set aside for it.
pub open spec fn left_alone(before: AccountView, after: AccountView, cid: Seq<char>) -> bool {
    &&& after.orders_open.map.contains_key(cid) == before.orders_open.map.contains_key(cid)
    &&& after.orders_open.map.contains_key(cid) ==> after.orders_open.map[cid]
        == before.orders_open.map[cid]
    &&& after.reservations.map.contains_key(cid) == before.reservations.map.contains_key(cid)
    &&& after.reservations.map.contains_key(cid) ==> after.reservations.map[cid]
        == before.reservations.map[cid]
}

/// The order is the same, but for how much of it is filled.
pub open spec fn same_order(before: ActiveOrder, after: ActiveOrder) -> bool {
    &&& after.key == before.key
    &&& after.side == before.side
    &&& after.price == before.price
    &&& after.quantity == before.quantity
    &&& after.kind == before.kind
    &&& after.time_in_force == before.time_in_force
    &&& after.state.id == before.state.id
}

/// The notifications tell of one trade, of the order.
pub open spec fn tells_of(
    sent: NotificationsView,
    order: ActiveOrder,
    quantity: Decimal,
    price: Decimal,
    time: Timestamp,
) -> bool {
    sent.trade matches Some(trade) && trade.instrument == order.key.instrument && trade.strategy
        == order.key.strategy && trade.order_id == order.state.id && trade.side == order.side
        && trade.quantity == quantity && trade.price == price && trade.time_exchange == time
}

/// A fill of an active order concerns that order alone: every other order and what is set aside
/// for it stay as they are, the order itself changes in nothing but how much of it is filled, and
/// the one trade that is told and recorded is of that order.
pub proof fn law_fill_concerns_one_order(
    exchange: ExchangeView,
    order: ActiveOrder,
    quantity: Decimal,
    price: Decimal,
)
    requires
        exchange.fill_resting(order, quantity, price) is Some,
    ensures
        ({
            let filled = exchange.fill_resting(order, quantity, price)->0;
            let (before, after) = (exchange.account, filled.exchange.account);
            let cid = order.key.cid;
            &&& forall|other: Seq<char>|
                other != cid ==> #[trigger] left_alone(before, after, other)
            &&& after.orders_open.map.contains_key(cid) ==> before.orders_open.map.contains_key(cid)
                && same_order(before.orders_open.map[cid], after.orders_open.map[cid])
            &&& match filled.notifications {
                Some(sent) => tells_of(sent, order, quantity, price, exchange.time) && after.trades
                    == before.trades.push(sent.trade->0),
                None => after.trades == before.trades,
            }
            &&& after.orders_cancelled == before.orders_cancelled
            &&& filled.exchange.time == exchange.time
            &&& filled.exchange.fees_percent == exchange.fees_percent
            &&& filled.exchange.instruments == exchange.instruments
            &&& filled.exchange.books == exchange.books
            &&& filled.exchange.last_trades == exchange.last_trades
        }),
{
    let cid = order.key.cid;
    match exchange.instruments.lookup(order.key.instrument) {
        None => {},
        Some(instrument) => {
            let value = quantity.times(price)->0;
            let deal = settlement(order.side, instrument, quantity, value, exchange.fees_percent)->0;
            let released = exchange.account.release(cid, exchange.time)->0;
            let (account, answer) = released.fill(
                deal.debit_asset,
                deal.debit_amount,
                deal.credit_asset,
                deal.credit_amount,
                exchange.time,
            )->0;
            lemma_balances_alone(
                released,
                deal.debit_asset,
                deal.debit_amount,
                deal.credit_asset,
                deal.credit_amount,
                exchange.time,
            );
            match answer {
                Ok(balances) => {
                    lemma_count_concerns(
                        exchange,
                        account,
                        order,
                        deal,
                        quantity,
                        price,
                        balances,
                    );
                    let counted = exchange.count_fill(
                        account,
                        order,
                        deal,
                        quantity,
                        price,
                        balances,
                    )->0.exchange.account;
                    assert forall|other: Seq<char>| other != cid implies #[trigger] left_alone(
                        exchange.account,
                        counted,
                        other,
                    ) by {
                        assert(left_alone(account, counted, other));
                    }
                },
                Err(_) => {},
            }
        },
    }
}

/// A fill of balances leaves orders alone.
proof fn lemma_balances_alone(
    account: AccountView,
    debit_asset: Seq<char>,
    debit_amount: Decimal,
    credit_asset: Seq<char>,
    credit_amount: Decimal,
    time: Timestamp,
)
    ensures
        account.fill(debit_asset, debit_amount, credit_asset, credit_amount, time) matches Some(
            outcome,
        ) ==> outcome.0 == (AccountView { balances: outcome.0.balances, ..account }),
{
}

/// Counting a fill concerns the order alone.
proof fn lemma_count_concerns(
    exchange: ExchangeView,
    account: AccountView,
    order: ActiveOrder,
    deal: Settlement<Seq<char>>,
    quantity: Decimal,
    price: Decimal,
    balances: Seq<AssetBalance<Seq<char>>>,
)
    requires
        exchange.count_fill(account, order, deal, quantity, price, balances) is Some,
    ensures
        ({
            let filled = exchange.count_fill(account, order, deal, quantity, price, balances)->0;
            let after = filled.exchange.account;
            let cid = order.key.cid;
            &&& forall|other: Seq<char>|
                other != cid ==> #[trigger] left_alone(account, after, other)
            &&& after.orders_open.map.contains_key(cid) ==> account.orders_open.map.contains_key(
                cid,
            ) && same_order(account.orders_open.map[cid], after.orders_open.map[cid])
            &&& match filled.notifications {
                Some(sent) => tells_of(sent, order, quantity, price, exchange.time) && after.trades
                    == account.trades.push(sent.trade->0),
                None => after.trades == account.trades,
            }
            &&& after.orders_cancelled == account.orders_cancelled
            &&& filled.exchange == (ExchangeView {
                account: after,
                order_sequence: filled.exchange.order_sequence,
                ..exchange
            })
        }),
{
}

/// The notifications tell of one trade, of one of the orders.
pub open spec fn tells_of_one(
    sent: NotificationsView,
    orders: Seq<ActiveOrder>,
    time: Timestamp,
) -> bool {
    exists|i: int|
        0 <= i < orders.len() && tells_of(
            sent,
            #[trigger] orders[i],
            (sent.trade->0).quantity,
            (sent.trade->0).price,
            time,
        )
}

/// Fills of active orders concern those orders alone, and every trade is of one of them.
pub open spec fn concerns_only(
    before: ExchangeView,
    orders: Seq<ActiveOrder>,
    fills: Fills,
) -> bool {
    let after = fills.exchange;
    &&& forall|cid: Seq<char>|
        (forall|i: int| 0 <= i < orders.len() ==> (#[trigger] orders[i]).key.cid != cid)
            ==> #[trigger] left_alone(before.account, after.account, cid)
    &&& forall|cid: Seq<char>| #[trigger]
        after.account.orders_open.map.contains_key(cid)
            ==> before.account.orders_open.map.contains_key(cid) && same_order(
            before.account.orders_open.map[cid],
            after.account.orders_open.map[cid],
        )
    &&& forall|n: int|
        0 <= n < fills.notifications.len() ==> tells_of_one(
            #[trigger] fills.notifications[n],
            orders,
            before.time,
        )
    &&& after.account.trades == before.account.trades + trades_told(fills.notifications)
    &&& after.account.orders_cancelled == before.account.orders_cancelled
    &&& after.time == before.time
    &&& after.fees_percent == before.fees_percent
    &&& after.instruments == before.instruments
    &&& after.books == before.books
    &&& after.last_trades == before.last_trades
}

/// The trades that notifications tell of, in order.
pub open spec fn trades_told(notifications: Seq<NotificationsView>) -> Seq<
    crate::account::Trade<Seq<char>>,
> {
    notifications.map_values(|sent: NotificationsView| sent.trade->0)
}

/// One more fill concerns one more order.
proof fn lemma_one_more_fill(
    start: ExchangeView,
    orders: Seq<ActiveOrder>,
    before: Fills,
    filled: Filled,
    quantity: Decimal,
    price: Decimal,
)
    requires
        orders.len() > 0,
        concerns_only(start, orders.drop_last(), before),
        before.exchange.fill_resting(orders.last(), quantity, price) == Some(filled),
    ensures
        concerns_only(start, orders, before.then_filled(filled)),
{
    let order = orders.last();
    let front = orders.drop_last();
    let fills = before.then_filled(filled);
    law_fill_concerns_one_order(before.exchange, order, quantity, price);
    let (a, b, c) = (start.account, before.exchange.account, fills.exchange.account);
    assert forall|cid: Seq<char>|
        (forall|i: int| 0 <= i < orders.len() ==> (#[trigger] orders[i]).key.cid != cid)
            implies #[trigger] left_alone(a, c, cid) by {
        assert forall|i: int| 0 <= i < front.len() implies (#[trigger] front[i]).key.cid
            != cid by {
            assert(front[i] == orders[i]);
        }
        assert(orders[orders.len() - 1].key.cid != cid);
        assert(left_alone(a, b, cid));
        assert(left_alone(b, c, cid));
    }
    assert forall|cid: Seq<char>| #[trigger] c.orders_open.map.contains_key(cid) implies
    a.orders_open.map.contains_key(cid) && same_order(
        a.orders_open.map[cid],
        c.orders_open.map[cid],
    ) by {
        if cid != order.key.cid {
            assert(left_alone(b, c, cid));
        }
        assert(b.orders_open.map.contains_key(cid));
    }
    assert forall|n: int| 0 <= n < fills.notifications.len() implies tells_of_one(
        #[trigger] fills.notifications[n],
        orders,
        start.time,
    ) by {
        if n < before.notifications.len() {
            assert(fills.notifications[n] == before.notifications[n]);
            assert(tells_of_one(before.notifications[n], front, start.time));
            let i = choose|i: int|
                0 <= i < front.len() && tells_of(
                    before.notifications[n],
                    #[trigger] front[i],
                    (before.notifications[n].trade->0).quantity,
                    (before.notifications[n].trade->0).price,
                    start.time,
                );
            assert(orders[i] == front[i]);
        } else {
            assert(orders[orders.len() - 1] == order);
        }
    }
    match filled.notifications {
        Some(sent) => {
            assert(trades_told(fills.notifications) =~= trades_told(before.notifications).push(
                sent.trade->0,
            ));
            assert(c.trades =~= a.trades + trades_told(fills.notifications));
        },
        None => {},
    }
}

/// Orders behind those that fills concern.
proof fn lemma_no_more_fill(start: ExchangeView, orders: Seq<ActiveOrder>, fills: Fills)
    requires
        orders.len() > 0,
        concerns_only(start, orders.drop_last(), fills),
    ensures
        concerns_only(start, orders, fills),
{
    let front = orders.drop_last();
    assert forall|cid: Seq<char>|
        (forall|i: int| 0 <= i < orders.len() ==> (#[trigger] orders[i]).key.cid != cid)
            implies #[trigger] left_alone(start.account, fills.exchange.account, cid) by {
        assert forall|i: int| 0 <= i < front.len() implies (#[trigger] front[i]).key.cid
            != cid by {
            assert(front[i] == orders[i]);
        }
    }
    assert forall|n: int| 0 <= n < fills.notifications.len() implies tells_of_one(
        #[trigger] fills.notifications[n],
        orders,
        start.time,
    ) by {
        assert(tells_of_one(fills.notifications[n], front, start.time));
        let i = choose|i: int|
            0 <= i < front.len() && tells_of(
                fills.notifications[n],
                #[trigger] front[i],
                (fills.notifications[n].trade->0).quantity,
                (fills.notifications[n].trade->0).price,
                start.time,
            );
        assert(orders[i] == front[i]);
    }
}

/// No order, no fill.
proof fn lemma_no_fill(start: ExchangeView, orders: Seq<ActiveOrder>)
    ensures
        concerns_only(start, orders, Fills { exchange: start, notifications: Seq::empty() }),
{
    let none: Seq<NotificationsView> = Seq::empty();
    assert(start.account.trades =~= start.account.trades + trades_told(none));
}

/// What a book does to orders concerns those orders alone.
proof fn lemma_touch_all_concerns<Q: QueueModel>(
    start: ExchangeView,
    orders: Seq<ActiveOrder>,
    book: BookView,
    queue: Q,
)
    ensures
        start.touch_all(orders, book, queue) matches Some(fills) ==> concerns_only(
            start,
            orders,
            fills,
        ),
    decreases orders.len(),
{
    if orders.len() == 0 {
        lemma_no_fill(start, orders);
    } else {
        lemma_touch_all_concerns(start, orders.drop_last(), book, queue);
        match start.touch_all(orders.drop_last(), book, queue) {
            Some(before) => match before.exchange.touch(orders.last(), book, queue) {
                Some(filled) => {
                    if filled == (Filled { exchange: before.exchange, notifications: None }) {
                        lemma_no_more_fill(start, orders, before);
                        assert(before.then_filled(filled) == before);
                    } else {
                        let order = orders.last();
                        let remaining = crate::account::remaining_quantity(order)->0;
                        let (quantity, price) = (fill_from(
                            order.side,
                            book.facing(order.side),
                            remaining,
                            Some(order.price),
                            queue,
                        )->0)->0;
                        lemma_one_more_fill(start, orders, before, filled, quantity, price);
                    }
                },
                None => {},
            },
            None => {},
        }
    }
}

/// What a public trade does to orders concerns those orders alone.
proof fn lemma_trade_all_concerns<Q: QueueModel>(
    start: ExchangeView,
    orders: Seq<ActiveOrder>,
    trade_price: Decimal,
    trade_quantity: Decimal,
    queue: Q,
)
    ensures
        start.trade_all(orders, trade_price, trade_quantity, queue) matches Some(outcome)
            ==> concerns_only(start, orders, outcome.0),
    decreases orders.len(),
{
    if orders.len() == 0 {
        lemma_no_fill(start, orders);
    } else {
        let front = orders.drop_last();
        lemma_trade_all_concerns(start, front, trade_price, trade_quantity, queue);
        match start.trade_all(front, trade_price, trade_quantity, queue) {
            Some((before, left)) => {
                let order = orders.last();
                match before.trade_one(order, trade_price, left, queue) {
                    Some((fills, _)) => {
                        if fills == before {
                            lemma_no_more_fill(start, orders, before);
                        } else {
                            let remaining = crate::account::remaining_quantity(order)->0;
                            let quantity = queue.traded(
                                left,
                                remaining,
                                order.side,
                                order.price,
                                trade_price,
                            );
                            let filled = before.exchange.fill_resting(
                                order,
                                quantity,
                                order.price,
                            )->0;
                            lemma_one_more_fill(
                                start,
                                orders,
                                before,
                                filled,
                                quantity,
                                order.price,
                            );
                        }
                    },
                    None => {},
                }
            },
            None => {},
        }
    }
}

/// The active orders that a market event may reach are of its instrument.
proof fn lemma_reached(exchange: ExchangeView, instrument: Seq<char>, i: int)
    requires
        keyed(exchange.account),
        0 <= i < exchange.active_orders(instrument).len(),
    ensures
        ({
            let order = exchange.active_orders(instrument)[i];
            &&& order.key.instrument == instrument
            &&& exchange.account.orders_open.map.contains_key(order.key.cid)
            &&& exchange.account.orders_open.map[order.key.cid] == order
        }),
{
    let open = exchange.account.orders_open;
    let all = open.values();
    let orders = exchange.active_orders(instrument);
    assert(orders.contains(orders[i]));
    all.lemma_filter_contains_rev(for_instrument(instrument), orders[i]);
    let j = choose|j: int| 0 <= j < all.len() && all[j] == orders[i];
    assert(open.keys.contains(open.keys[j]));
    assert(open.map.contains_key(open.keys[j]));
}

/// A market event of one instrument concerns that instrument alone. Every active order of another
/// instrument stays as it is, with what is filled of it and what is set aside for it, and so does
/// what the exchange knows of other markets. Every trade that the event brings is of its
/// instrument, is made at its time, and is recorded in the order in which it is told. No order
/// becomes active through it.
pub proof fn law_market_event_concerns_its_instrument<Q: QueueModel>(
    exchange: ExchangeView,
    instrument: Seq<char>,
    time: Timestamp,
    kind: MockMarketEventKind,
    queue: Q,
)
    requires
        keyed(exchange.account),
        exchange.market(instrument, time, kind, queue) is Some,
    ensures
        ({
            let fills = exchange.market(instrument, time, kind, queue)->0;
            let (before, after) = (exchange.account, fills.exchange.account);
            &&& forall|cid: Seq<char>|
                before.orders_open.map.contains_key(cid)
                    && before.orders_open.map[cid].key.instrument != instrument
                    ==> #[trigger] left_alone(before, after, cid)
            &&& forall|cid: Seq<char>| #[trigger]
                after.orders_open.map.contains_key(cid) ==> before.orders_open.map.contains_key(cid)
                    && same_order(before.orders_open.map[cid], after.orders_open.map[cid])
            &&& forall|n: int|
                0 <= n < fills.notifications.len() ==> ((
                #[trigger] fills.notifications[n]).trade matches Some(trade) && trade.instrument
                    == instrument && trade.time_exchange == time)
            &&& after.trades == before.trades + trades_told(fills.notifications)
            &&& after.orders_cancelled == before.orders_cancelled
            &&& fills.exchange.time == time
            &&& forall|other: Seq<char>|
                other != instrument ==> (#[trigger] fills.exchange.books.lookup(other))
                    == exchange.books.lookup(other)
            &&& forall|other: Seq<char>|
                other != instrument ==> (#[trigger] fills.exchange.last_trades.lookup(other))
                    == exchange.last_trades.lookup(other)
        }),
{
    let fills = exchange.market(instrument, time, kind, queue)->0;
    let seen = match kind {
        MockMarketEventKind::OrderBook { bids, asks } => {
            let book = BookView {
                bids: crate::market::best_first(Side::Sell, bids@),
                asks: crate::market::best_first(Side::Buy, asks@),
            };
            let seen = ExchangeView { time, books: exchange.books.put(instrument, book), ..exchange
            };
            lemma_touch_all_concerns(seen, seen.active_orders(instrument), book, queue);
            seen
        },
        MockMarketEventKind::Trade { price, quantity } => {
            let seen = ExchangeView {
                time,
                last_trades: exchange.last_trades.put(instrument, price),
                ..exchange
            };
            lemma_trade_all_concerns(seen, seen.active_orders(instrument), price, quantity, queue);
            seen
        },
    };
    let orders = seen.active_orders(instrument);
    let (before, after) = (exchange.account, fills.exchange.account);
    assert(concerns_only(seen, orders, fills));
    assert forall|cid: Seq<char>|
        before.orders_open.map.contains_key(cid) && before.orders_open.map[cid].key.instrument
            != instrument implies #[trigger] left_alone(before, after, cid) by {
        assert forall|i: int| 0 <= i < orders.len() implies (#[trigger] orders[i]).key.cid
            != cid by {
            lemma_reached(seen, instrument, i);
        }
    }
    assert forall|n: int| 0 <= n < fills.notifications.len() implies ((
    #[trigger] fills.notifications[n]).trade matches Some(trade) && trade.instrument == instrument
        && trade.time_exchange == time) by {
        assert(tells_of_one(fills.notifications[n], orders, seen.time));
        let i = choose|i: int|
            0 <= i < orders.len() && tells_of(
                fills.notifications[n],
                #[trigger] orders[i],
                (fills.notifications[n].trade->0).quantity,
                (fills.notifications[n].trade->0).price,
                seen.time,
            );
        lemma_reached(seen, instrument, i);
    }
}

/// What a market event tells of the market is kept: a book has the levels of the event, the highest
/// bid and the lowest ask first; a public trade is the last one of the instrument. Of the other kind
/// nothing changes.
pub proof fn law_market_event_is_kept<Q: QueueModel>(
    exchange: ExchangeView,
    instrument: Seq<char>,
    time: Timestamp,
    kind: MockMarketEventKind,
    queue: Q,
)
    requires
        keyed(exchange.account),
        exchange.market(instrument, time, kind, queue) is Some,
    ensures
        ({
            let after = exchange.market(instrument, time, kind, queue)->0.exchange;
            &&& after.order_sequence >= exchange.order_sequence
            &&& after.fees_percent == exchange.fees_percent
            &&& after.instruments == exchange.instruments
            &&& match kind {
                MockMarketEventKind::OrderBook { bids, asks } => {
                    &&& after.last_trades == exchange.last_trades
                    &&& after.books.map.contains_key(instrument)
                    &&& {
                        let book = after.books.map[instrument];
                        &&& book.bids.to_multiset() == bids@.to_multiset()
                        &&& book.asks.to_multiset() == asks@.to_multiset()
                        &&& forall|i: int, j: int|
                            0 <= i < j < book.bids.len() ==> (
                            #[trigger] book.bids[i]).price.units() >= (
                            #[trigger] book.bids[j]).price.units()
                        &&& forall|i: int, j: int|
                            0 <= i < j < book.asks.len() ==> (
                            #[trigger] book.asks[i]).price.units() <= (
                            #[trigger] book.asks[j]).price.units()
                    }
                },
                MockMarketEventKind::Trade { price, .. } => {
                    &&& after.books == exchange.books
                    &&& after.last_trades.map.contains_key(instrument)
                    &&& after.last_trades.map[instrument] == price
                },
            }
        }),
{
    match kind {
        MockMarketEventKind::OrderBook { bids, asks } => {
            let book = BookView {
                bids: crate::market::best_first(Side::Sell, bids@),
                asks: crate::market::best_first(Side::Buy, asks@),
            };
            let seen = ExchangeView { time, books: exchange.books.put(instrument, book), ..exchange
            };
            lemma_touch_all_concerns(seen, seen.active_orders(instrument), book, queue);
            lemma_touch_all_counts_up(seen, seen.active_orders(instrument), book, queue);
            crate::market::law_updated_book_is_sorted(Side::Sell, bids@);
            crate::market::law_updated_book_is_sorted(Side::Buy, asks@);
        },
        MockMarketEventKind::Trade { price, quantity } => {
            let seen = ExchangeView {
                time,
                last_trades: exchange.last_trades.put(instrument, price),
                ..exchange
            };
            lemma_trade_all_concerns(seen, seen.active_orders(instrument), price, quantity, queue);
            lemma_trade_all_counts_up(seen, seen.active_orders(instrument), price, quantity, queue);
        },
    }
}

/// Fills hand out new ids.
proof fn lemma_touch_all_counts_up<Q: QueueModel>(
    exchange: ExchangeView,
    orders: Seq<ActiveOrder>,
    book: BookView,
    queue: Q,
)
    ensures
        exchange.touch_all(orders, book, queue) matches Some(fills)
            ==> fills.exchange.order_sequence >= exchange.order_sequence,
    decreases orders.len(),
{
    if orders.len() > 0 {
        lemma_touch_all_counts_up(exchange, orders.drop_last(), book, queue);
    }
}

/// Fills hand out new ids.
proof fn lemma_trade_all_counts_up<Q: QueueModel>(
    exchange: ExchangeView,
    orders: Seq<ActiveOrder>,
    price: Decimal,
    quantity: Decimal,
    queue: Q,
)
    ensures
        exchange.trade_all(orders, price, quantity, queue) matches Some((fills, _))
            ==> fills.exchange.order_sequence >= exchange.order_sequence,
    decreases orders.len(),
{
    if orders.len() > 0 {
        lemma_trade_all_counts_up(exchange, orders.drop_last(), price, quantity, queue);
    }
}

/// The active orders that a market event may reach are all those of its instrument, and no others;
/// where all are of it, in the order in which they came.
pub proof fn law_event_reaches_the_orders_of_its_instrument(
    exchange: ExchangeView,
    instrument: Seq<char>,
    order: ActiveOrder,
)
    ensures
        exchange.active_orders(instrument).contains(order) <==> order.key.instrument == instrument
            && exchange.account.orders_open.values().contains(order),
        (forall|i: int|
            0 <= i < exchange.account.orders_open.values().len() ==> (
            #[trigger] exchange.account.orders_open.values()[i]).key.instrument == instrument)
            ==> exchange.active_orders(instrument) == exchange.account.orders_open.values(),
{
    let all = exchange.account.orders_open.values();
    crate::upkeep::lemma_filter_contains(all, for_instrument(instrument), order);
    if forall|i: int|
        0 <= i < exchange.account.orders_open.values().len() ==> (
        #[trigger] exchange.account.orders_open.values()[i]).key.instrument == instrument {
        crate::upkeep::lemma_filter_all(all, for_instrument(instrument));
    }
}

/// Orders that came earlier come first: what a book does to them is the same whatever orders stand
/// behind them, and is told before.
pub proof fn law_earlier_orders_meet_the_book_first<Q: QueueModel>(
    exchange: ExchangeView,
    orders: Seq<ActiveOrder>,
    book: BookView,
    queue: Q,
    count: int,
)
    requires
        0 <= count <= orders.len(),
        exchange.touch_all(orders, book, queue) is Some,
    ensures
        exchange.touch_all(orders.take(count), book, queue) matches Some(first)
            && first.notifications.is_prefix_of(
            exchange.touch_all(orders, book, queue)->0.notifications,
        ),
    decreases orders.len() - count,
{
    if count < orders.len() {
        law_earlier_orders_meet_the_book_first(exchange, orders, book, queue, count + 1);
        assert(orders.take(count + 1).drop_last() =~= orders.take(count));
        let first = exchange.touch_all(orders.take(count), book, queue)->0.notifications;
        let more = exchange.touch_all(orders.take(count + 1), book, queue)->0.notifications;
        let all = exchange.touch_all(orders, book, queue)->0.notifications;
        assert(more.take(first.len() as int) =~= first);
        assert(all.take(more.len() as int) =~= more);
        assert(all.take(first.len() as int) =~= first);
    } else {
        assert(orders.take(count) =~= orders);
        let all = exchange.touch_all(orders, book, queue)->0.notifications;
        assert(all.take(all.len() as int) =~= all);
    }
}

/// Orders that came earlier come first: what of a public trade they get is the same whatever orders
/// stand behind them, and is told before.
pub proof fn law_earlier_orders_meet_the_trade_first<Q: QueueModel>(
    exchange: ExchangeView,
    orders: Seq<ActiveOrder>,
    price: Decimal,
    quantity: Decimal,
    queue: Q,
    count: int,
)
    requires
        0 <= count <= orders.len(),
        exchange.trade_all(orders, price, quantity, queue) is Some,
    ensures
        exchange.trade_all(orders.take(count), price, quantity, queue) matches Some((first, _))
            && first.notifications.is_prefix_of(
            (exchange.trade_all(orders, price, quantity, queue)->0).0.notifications,
        ),
    decreases orders.len() - count,
{
    if count < orders.len() {
        law_earlier_orders_meet_the_trade_first(
            exchange,
            orders,
            price,
            quantity,
            queue,
            count + 1,
        );
        assert(orders.take(count + 1).drop_last() =~= orders.take(count));
        let first = (exchange.trade_all(
            orders.take(count),
            price,
            quantity,
            queue,
        )->0).0.notifications;
        let more = (exchange.trade_all(
            orders.take(count + 1),
            price,
            quantity,
            queue,
        )->0).0.notifications;
        let all = (exchange.trade_all(orders, price, quantity, queue)->0).0.notifications;
        assert(more.take(first.len() as int) =~= first);
        assert(all.take(more.len() as int) =~= more);
        assert(all.take(first.len() as int) =~= first);
    } else {
        assert(orders.take(count) =~= orders);
        let all = (exchange.trade_all(orders, price, quantity, queue)->0).0.notifications;
        assert(all.take(all.len() as int) =~= all);
    }
}

} // verus!
