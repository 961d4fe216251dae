//! What an account hands out, sets aside and gives back, and what it tells of.

use crate::account::{AccountView, AssetBalance, Trade};
use crate::conduct::{left_alone, ActiveOrder};
use crate::deals::{
    costs_exactly, lemma_reservation, lemma_value_and_fees, moves_money, one_unit, sets_aside,
    trades_exactly,
};
use crate::decimal::{lemma_nought, lemma_sign, Decimal};
use crate::exchange::{
    CancelRequestView, ExchangeView, MockExecutionConfig, NotificationsView, OpenOrderNotifications,
};
use crate::instrument::{ExchangeId, Instrument, Side};
use crate::laws::{
    adds_up, free_units, keyed, law_fill_moves_both_balances, subtracts_up, takes_exactly,
    total_units,
};
use crate::market::{
    best_first, law_updated_book_is_sorted, ConservativeQueue, FixedLatency, LatencyModel,
    MockMarketLevel, NoQueue, QueueModel,
};
use crate::matching::settlement;
use crate::names::{views, Named};
use crate::order::{ApiError, OrderError, OrderState};
use crate::requests::{
    answers, balances_for, events_of, orders_for, trades_since, with_trade_recorded, EventKindView,
    MockExchangeRequestKind, MockExchangeResponse,
};
use crate::resting::{Filled, Fills};
use crate::time::Timestamp;
use vstd::prelude::*;

verus! {

/// An amount is set aside just where so much of the asset is free. Then it is set aside under the
/// id, so much less is free, and nothing else changes; otherwise nothing does.
pub proof fn law_amount_is_set_aside_where_it_is_free(
    account: AccountView,
    cid: Seq<char>,
    asset: Seq<char>,
    amount: Decimal,
    time: Timestamp,
)
    requires
        subtracts_up(account.balances.map[asset].balance.free, amount),
    ensures
        account.reserve(cid, asset, amount, time) matches Some((after, answer)) && {
            &&& answer is Ok <==> account.balances.map.contains_key(asset) && free_units(
                account,
                asset,
            ) >= amount.units()
            &&& answer is Err ==> after == account
            &&& answer matches Err(error) ==> match error {
                OrderError::Rejected(ApiError::BalanceInsufficient(blamed, message)) => blamed
                    == asset && account.balances.map.contains_key(asset) && message
                    == "Available Balance: "@ + account.balances.map[asset].balance.free.text()
                    + ", Required Balance: "@ + amount.text(),
                OrderError::Rejected(ApiError::AssetInvalid(blamed, _)) => blamed == asset
                    && !account.balances.map.contains_key(asset),
                _ => false,
            }
            &&& answer is Ok ==> {
                &&& after.reservations.map == account.reservations.map.insert(cid, (asset, amount))
                &&& free_units(after, asset) == free_units(account, asset) - amount.units()
                &&& after.balances.map[asset].balance.total
                    == account.balances.map[asset].balance.total
                &&& after.balances.map[asset].asset == account.balances.map[asset].asset
                &&& after.balances.map[asset].time_exchange == time
                &&& after.balances.map.dom() == account.balances.map.dom()
                &&& forall|other: Seq<char>|
                    other != asset ==> #[trigger] after.balances.lookup(other)
                        == account.balances.lookup(other)
                &&& after.orders_open == account.orders_open
                &&& after.orders_cancelled == account.orders_cancelled
                &&& after.trades == account.trades
            }
        },
{
    assert(account.balances.map.contains_key(asset) ==> account.balances.map.insert(
        asset,
        account.balances.map[asset],
    ).dom() =~= account.balances.map.dom());
    if let Some((after, answer)) = account.reserve(cid, asset, amount, time) {
        if answer is Ok {
            assert(after.balances.map.dom() =~= account.balances.map.dom());
        }
    }
}

/// What was set aside for an order is freed: nothing is set aside for it any more, so much more of
/// the asset is free, no total changes, and nothing else does.
pub proof fn law_amount_is_freed(account: AccountView, cid: Seq<char>, time: Timestamp)
    requires
        account.release(cid, time) is Some,
    ensures
        ({
            let after = account.release(cid, time)->0;
            &&& !after.reservations.map.contains_key(cid)
            &&& forall|other: Seq<char>|
                other != cid ==> #[trigger] after.reservations.lookup(other)
                    == account.reservations.lookup(other)
            &&& after.orders_open == account.orders_open
            &&& after.orders_cancelled == account.orders_cancelled
            &&& after.trades == account.trades
            &&& match account.reservations.lookup(cid) {
                Some((asset, amount)) => {
                    &&& forall|other: Seq<char>|
                        other != asset ==> #[trigger] after.balances.lookup(other)
                            == account.balances.lookup(other)
                    &&& account.balances.map.contains_key(asset) ==> {
                        &&& after.balances.map.contains_key(asset)
                        &&& after.balances.map[asset].balance.total
                            == account.balances.map[asset].balance.total
                        &&& adds_up(account.balances.map[asset].balance.free, amount)
                            ==> free_units(after, asset) == free_units(account, asset)
                            + amount.units()
                    }
                },
                None => after == account,
            }
        }),
{
}

/// A cancellation concerns the order that it names: that order is active no more, is kept as a
/// cancelled one with all that was asked for, and what was set aside for it is free again. Every
/// other order stays as it is, and no total changes. A cancellation of an order that is not active,
/// or under another id, is refused, and nothing changes.
pub proof fn law_cancel_concerns_one_order(exchange: ExchangeView, request: CancelRequestView)
    requires
        exchange.cancel(request) is Some,
    ensures
        ({
            let (after_exchange, answer) = exchange.cancel(request)->0;
            let (before, after) = (exchange.account, after_exchange.account);
            let cid = request.key.cid;
            &&& answer.key == request.key
            &&& answer.state is Ok <==> before.orders_open.map.contains_key(cid) && (
            request.state.id matches Some(id) ==> id == before.orders_open.map[cid].state.id)
            &&& after_exchange == (ExchangeView { account: after, ..exchange })
            &&& answer.state is Err ==> after == before
            &&& answer.state matches Ok(cancelled) ==> {
                &&& cancelled.id == before.orders_open.map[cid].state.id
                &&& cancelled.time_exchange == exchange.time
                &&& !after.orders_open.map.contains_key(cid)
                &&& !after.reservations.map.contains_key(cid)
                &&& forall|other: Seq<char>|
                    other != cid ==> #[trigger] left_alone(before, after, other)
                &&& forall|other: Seq<char>|
                    other != cid ==> #[trigger] after.orders_cancelled.lookup(other)
                        == before.orders_cancelled.lookup(other)
                &&& after.orders_cancelled.map.contains_key(cid)
                &&& {
                    let kept = after.orders_cancelled.map[cid];
                    let order = before.orders_open.map[cid];
                    &&& kept.key == order.key
                    &&& kept.side == order.side
                    &&& kept.price == order.price
                    &&& kept.quantity == order.quantity
                    &&& kept.kind == order.kind
                    &&& kept.time_in_force == order.time_in_force
                    &&& kept.state == cancelled
                }
                &&& after.trades == before.trades
                &&& forall|asset: Seq<char>| #[trigger]
                    before.balances.map.contains_key(asset)
                        ==> after.balances.map[asset].balance.total
                        == before.balances.map[asset].balance.total
                &&& before.reservations.lookup(cid) matches Some((asset, amount)) ==> (
                before.balances.map.contains_key(asset) && adds_up(
                    before.balances.map[asset].balance.free,
                    amount,
                ) ==> free_units(after, asset) == free_units(before, asset) + amount.units())
            }
        }),
{
    if (exchange.cancel(request)->0).1.state is Ok {
        law_amount_is_freed(exchange.account, request.key.cid, exchange.time);
    }
}

/// A change of a balance moves what is free and the total alike, where enough stays free.
pub proof fn law_change_moves_free_and_total(
    account: AccountView,
    asset: Seq<char>,
    change: Decimal,
    time: Timestamp,
)
    requires
        takes_exactly(account, asset, change),
    ensures
        account.delta(asset, change, time) matches Some((after, answer)) && {
            &&& answer is Ok <==> account.balances.map.contains_key(asset) && free_units(
                account,
                asset,
            ) + change.units() >= 0
            &&& answer is Err ==> after == account
            &&& answer matches Ok(balance) ==> {
                &&& after.balances.map[asset] == balance
                &&& free_units(after, asset) == free_units(account, asset) + change.units()
                &&& total_units(after, asset) == total_units(account, asset) + change.units()
                &&& balance.time_exchange == time
                &&& balance.asset == account.balances.map[asset].asset
                &&& forall|other: Seq<char>|
                    other != asset ==> #[trigger] after.balances.lookup(other)
                        == account.balances.lookup(other)
                &&& after == (AccountView { balances: after.balances, ..account })
            }
        },
{
}

/// The account at another time: balances and active orders have that time, and nothing else has
/// changed.
pub proof fn law_stamp_changes_times_alone(account: AccountView, time: Timestamp)
    ensures
        ({
            let after = account.stamped(time);
            &&& after.balances.keys == account.balances.keys
            &&& after.orders_open.keys == account.orders_open.keys
            &&& after.balances.map.dom() == account.balances.map.dom()
            &&& after.orders_open.map.dom() == account.orders_open.map.dom()
            &&& forall|asset: Seq<char>| #[trigger]
                account.balances.map.contains_key(asset) ==> after.balances.map[asset].asset
                    == account.balances.map[asset].asset && after.balances.map[asset].balance
                    == account.balances.map[asset].balance
                    && after.balances.map[asset].time_exchange == time
            &&& forall|cid: Seq<char>| #[trigger]
                account.orders_open.map.contains_key(cid) ==> {
                    let (before, stamped) = (
                        account.orders_open.map[cid],
                        after.orders_open.map[cid],
                    );
                    &&& stamped.key == before.key
                    &&& stamped.side == before.side
                    &&& stamped.price == before.price
                    &&& stamped.quantity == before.quantity
                    &&& stamped.kind == before.kind
                    &&& stamped.time_in_force == before.time_in_force
                    &&& stamped.state.id == before.state.id
                    &&& stamped.state.filled_quantity == before.state.filled_quantity
                    &&& stamped.state.time_exchange == time
                }
            &&& after.orders_cancelled == account.orders_cancelled
            &&& after.reservations == account.reservations
            &&& after.trades == account.trades
        }),
{
    let after = account.stamped(time);
    assert(after.balances.map.dom() =~= account.balances.map.dom());
    assert(after.orders_open.map.dom() =~= account.orders_open.map.dom());
}

/// What is filtered is everything where everything passes.
pub proof fn lemma_filter_all<A>(items: Seq<A>, pred: spec_fn(A) -> bool)
    requires
        forall|i: int| 0 <= i < items.len() ==> pred(#[trigger] items[i]),
    ensures
        items.filter(pred) == items,
    decreases items.len(),
{
    reveal(Seq::filter);
    if items.len() > 0 {
        let front = items.drop_last();
        assert forall|i: int| 0 <= i < front.len() implies pred(#[trigger] front[i]) by {
            assert(front[i] == items[i]);
        }
        lemma_filter_all(front, pred);
        assert(pred(items[items.len() - 1]));
        assert(front.push(items.last()) =~= items);
    } else {
        assert(items.filter(pred) =~= items);
    }
}

/// The balances that are handed out are those of the assets that are asked for, no others and none
/// left out; all of them in order where all are asked for.
pub proof fn law_balances_asked_for_are_handed_out(
    account: AccountView,
    assets: Seq<Seq<char>>,
    balance: AssetBalance<Seq<char>>,
)
    ensures
        balances_for(account, assets).contains(balance) <==> assets.contains(balance.asset)
            && account.balances.values().contains(balance),
        (forall|i: int|
            0 <= i < account.balances.values().len() ==> assets.contains(
                (#[trigger] account.balances.values()[i]).asset,
            )) ==> balances_for(account, assets) == account.balances.values(),
{
    let pred = |balance: AssetBalance<Seq<char>>| assets.contains(balance.asset);
    lemma_filter_contains(account.balances.values(), pred, balance);
    if forall|i: int|
        0 <= i < account.balances.values().len() ==> assets.contains(
            (#[trigger] account.balances.values()[i]).asset,
        ) {
        lemma_filter_all(account.balances.values(), pred);
    }
}

/// What is filtered is what passes.
pub proof fn lemma_filter_contains<A>(items: Seq<A>, pred: spec_fn(A) -> bool, item: A)
    ensures
        items.filter(pred).contains(item) <==> items.contains(item) && pred(item),
    decreases items.len(),
{
    reveal(Seq::filter);
    if items.len() > 0 {
        let front = items.drop_last();
        lemma_filter_contains(front, pred, item);
        assert(items =~= front.push(items.last()));
        assert(items.contains(item) <==> front.contains(item) || items.last() == item) by {
            if front.contains(item) {
                let i = choose|i: int| 0 <= i < front.len() && front[i] == item;
                assert(items[i] == item);
            }
            if items.last() == item {
                assert(items[items.len() - 1] == item);
            }
            if items.contains(item) && items.last() != item {
                let i = choose|i: int| 0 <= i < items.len() && items[i] == item;
                assert(front[i] == item);
            }
        }
        let sub = front.filter(pred);
        assert(sub.push(items.last()).contains(item) <==> sub.contains(item) || items.last()
            == item) by {
            if sub.contains(item) {
                let i = choose|i: int| 0 <= i < sub.len() && sub[i] == item;
                assert(sub.push(items.last())[i] == item);
            }
            if items.last() == item {
                assert(sub.push(items.last())[sub.len() as int] == item);
            }
            if sub.push(items.last()).contains(item) && items.last() != item {
                let i = choose|i: int|
                    0 <= i < sub.push(items.last()).len() && sub.push(items.last())[i] == item;
                assert(sub[i] == item);
            }
        }
    }
}

/// The active orders that are handed out are those of the instruments that are asked for, no others
/// and none left out; all of them in order where all are asked for.
pub proof fn law_orders_asked_for_are_handed_out(
    account: AccountView,
    instruments: Seq<Seq<char>>,
    order: ActiveOrder,
)
    ensures
        orders_for(account, instruments).contains(order) <==> instruments.contains(
            order.key.instrument,
        ) && account.orders_open.values().contains(order),
        (forall|i: int|
            0 <= i < account.orders_open.values().len() ==> instruments.contains(
                (#[trigger] account.orders_open.values()[i]).key.instrument,
            )) ==> orders_for(account, instruments) == account.orders_open.values(),
{
    let pred = |order: ActiveOrder| instruments.contains(order.key.instrument);
    lemma_filter_contains(account.orders_open.values(), pred, order);
    if forall|i: int|
        0 <= i < account.orders_open.values().len() ==> instruments.contains(
            (#[trigger] account.orders_open.values()[i]).key.instrument,
        ) {
        lemma_filter_all(account.orders_open.values(), pred);
    }
}

/// The trades that are handed out are those from the time on, that time with them, no others and
/// none left out; all of them in order where none is earlier.
pub proof fn law_trades_asked_for_are_handed_out(
    account: AccountView,
    time_since: Timestamp,
    trade: Trade<Seq<char>>,
)
    requires
        time_since.nanos < 1_000_000_000,
        forall|i: int|
            0 <= i < account.trades.len() ==> (#[trigger] account.trades[i]).time_exchange.nanos
                < 1_000_000_000,
    ensures
        trades_since(account, time_since).contains(trade) <==> account.trades.contains(trade)
            && trade.time_exchange.secs * 1_000_000_000 + trade.time_exchange.nanos
            >= time_since.secs * 1_000_000_000 + time_since.nanos,
        (forall|i: int|
            0 <= i < account.trades.len() ==> (#[trigger] account.trades[i]).time_exchange.secs
                * 1_000_000_000 + account.trades[i].time_exchange.nanos >= time_since.secs
                * 1_000_000_000 + time_since.nanos) ==> trades_since(account, time_since)
            == account.trades,
{
    let pred = |trade: Trade<Seq<char>>| !trade.time_exchange.before(time_since);
    lemma_filter_contains(account.trades, pred, trade);
    if forall|i: int|
        0 <= i < account.trades.len() ==> (#[trigger] account.trades[i]).time_exchange.secs
            * 1_000_000_000 + account.trades[i].time_exchange.nanos >= time_since.secs
            * 1_000_000_000 + time_since.nanos {
        lemma_filter_all(account.trades, pred);
    }
}

/// Notifications are told as events of the exchange: the balances in order, then the trade, then the
/// order, each as it is, and nothing else.
pub proof fn law_notifications_are_told_in_order(
    exchange: ExchangeId,
    sent: NotificationsView,
)
    ensures
        ({
            let events = events_of(exchange, sent);
            let count = sent.balances.len();
            let traded: int = if sent.trade is Some {
                1
            } else {
                0
            };
            let ordered: int = if sent.order is Some {
                1
            } else {
                0
            };
            &&& events.len() == count + traded + ordered
            &&& forall|i: int| 0 <= i < events.len() ==> (#[trigger] events[i]).exchange == exchange
            &&& forall|i: int|
                0 <= i < count ==> (#[trigger] events[i]).kind == EventKindView::Balance(
                    sent.balances[i],
                )
            &&& sent.trade matches Some(trade) ==> events[count as int].kind
                == EventKindView::Trade(trade)
            &&& sent.order matches Some(order) ==> events[count + traded].kind
                == EventKindView::Order(order)
        }),
{
}

/// The trade of an execution is recorded once, behind all others, and nothing else changes; without
/// an execution nothing is recorded.
pub proof fn law_trade_is_recorded_once(exchange: ExchangeView, sent: Option<NotificationsView>)
    ensures
        ({
            let after = with_trade_recorded(exchange, sent);
            let traded = if let Some(sent) = sent {
                sent.trade
            } else {
                None
            };
            &&& match traded {
                Some(trade) => after.account.trades.len() == exchange.account.trades.len() + 1
                    && after.account.trades.last() == trade && after.account.trades.drop_last()
                    == exchange.account.trades,
                None => after == exchange,
            }
            &&& after == (ExchangeView {
                account: AccountView { trades: after.account.trades, ..exchange.account },
                ..exchange
            })
        }),
{
    let after = with_trade_recorded(exchange, sent);
    if let Some(sent) = sent {
        if let Some(trade) = sent.trade {
            assert(after.account.trades.drop_last() =~= exchange.account.trades);
        }
    }
}

/// A book has its highest bid and its lowest ask first, and holds just the levels that came.
pub proof fn law_best_prices_come_first(bids: Seq<MockMarketLevel>, asks: Seq<MockMarketLevel>)
    ensures
        forall|i: int, j: int|
            0 <= i < j < best_first(Side::Sell, bids).len() ==> (#[trigger] best_first(
                Side::Sell,
                bids,
            )[i]).price.units() >= (#[trigger] best_first(Side::Sell, bids)[j]).price.units(),
        forall|i: int, j: int|
            0 <= i < j < best_first(Side::Buy, asks).len() ==> (#[trigger] best_first(
                Side::Buy,
                asks,
            )[i]).price.units() <= (#[trigger] best_first(Side::Buy, asks)[j]).price.units(),
        best_first(Side::Sell, bids).to_multiset() == bids.to_multiset(),
        best_first(Side::Buy, asks).to_multiset() == asks.to_multiset(),
{
    law_updated_book_is_sorted(Side::Sell, bids);
    law_updated_book_is_sorted(Side::Buy, asks);
}

/// Without a queue an order gets what is there and no more than it wants from a book, and nothing
/// from trades of others. Behind the queue it gets nothing from a book, and of the trades of others
/// what is there and no more than it wants, where they are at its price or a worse one for it.
pub proof fn law_models_hand_out_by_value(
    available: Decimal,
    requested: Decimal,
    side: Side,
    order_price: Decimal,
    trade_price: Decimal,
)
    ensures
        NoQueue.touched(available, requested).units() == (if available.units()
            <= requested.units() {
            available.units()
        } else {
            requested.units()
        }),
        NoQueue.traded(available, requested, side, order_price, trade_price).units() == 0,
        ConservativeQueue.touched(available, requested).units() == 0,
        ConservativeQueue.traded(
            available,
            requested,
            side,
            order_price,
            trade_price,
        ).units() == (if (side is Buy && trade_price.units() <= order_price.units()) || (side
            is Sell && trade_price.units() >= order_price.units()) {
            if available.units() <= requested.units() {
                available.units()
            } else {
                requested.units()
            }
        } else {
            0
        }),
{
    lemma_nought();
}

/// The configured latency is that of everything.
pub proof fn law_fixed_latency_is_the_configured_one(configured_ms: u64)
    ensures
        FixedLatency.delay(configured_ms) == configured_ms,
        FixedLatency.feed_delay(configured_ms) == configured_ms,
        FixedLatency.order_delay(configured_ms) == configured_ms,
{
}

/// The size of a number is the number without its sign, and the smaller of two is one of them and no
/// larger than either.
pub proof fn law_size_and_smaller_by_value(a: Decimal, b: Decimal)
    requires
        a.valid(),
    ensures
        a.magnitude().units() == (if a.units() < 0 {
            -a.units()
        } else {
            a.units()
        }),
        a.negated().units() == -a.units(),
        a.negated().places() == a.places(),
        a.smaller(b) == a || a.smaller(b) == b,
        a.smaller(b).units() <= a.units() && a.smaller(b).units() <= b.units(),
        Decimal::nought().units() == 0,
        Decimal::unit().units() == one_unit(),
{
    lemma_sign(a);
    lemma_nought();
    crate::decimal::lemma_parts_are_kept(1, 0);
    crate::decimal::lemma_parts_are_kept((-a.digits()) as i128, a.places());
    assert(1 * one_unit() == one_unit());
}

/// A fill of an active order moves the money of its trade, whatever is set aside for it, and the
/// fees that are told are those of the rate on the value.
pub proof fn law_fill_moves_the_money(
    exchange: ExchangeView,
    order: ActiveOrder,
    instrument: Instrument<Seq<char>>,
    quantity: Decimal,
    price: Decimal,
)
    requires
        exchange.instruments.lookup(order.key.instrument) == Some(instrument),
        instrument.underlying.base != instrument.underlying.quote,
        exchange.fill_resting(order, quantity, price) matches Some(filled) && filled.notifications
            is Some,
        exchange.account.release(order.key.cid, exchange.time) matches Some(released)
            && trades_exactly(
            released,
            instrument,
            order.side,
            quantity,
            price,
            quantity.times(price)->0,
            exchange.fees_percent,
        ),
    ensures
        ({
            let filled = exchange.fill_resting(order, quantity, price)->0;
            let trade = (filled.notifications->0).trade->0;
            &&& moves_money(
                exchange.account,
                filled.exchange.account,
                instrument,
                order.side,
                quantity.units(),
                price.units(),
                exchange.fees_percent.units(),
            )
            &&& trade.fees.fees.units() * one_unit() * one_unit() == price.units()
                * quantity.units() * exchange.fees_percent.units()
        }),
{
    let cid = order.key.cid;
    let released = exchange.account.release(cid, exchange.time)->0;
    let value = quantity.times(price)->0;
    let deal = settlement(order.side, instrument, quantity, value, exchange.fees_percent)->0;
    let (account, answer) = released.fill(
        deal.debit_asset,
        deal.debit_amount,
        deal.credit_asset,
        deal.credit_amount,
        exchange.time,
    )->0;
    law_amount_is_freed(exchange.account, cid, exchange.time);
    if answer is Ok {
        law_fill_moves_both_balances(
            released,
            deal.debit_asset,
            deal.debit_amount,
            deal.credit_asset,
            deal.credit_amount,
            exchange.time,
        );
        let base = instrument.underlying.base;
        let quote = instrument.underlying.quote;
        assert(total_units(released, base) == total_units(exchange.account, base)) by {
            lemma_total_is_kept(exchange.account, cid, exchange.time, base);
        }
        assert(total_units(released, quote) == total_units(exchange.account, quote)) by {
            lemma_total_is_kept(exchange.account, cid, exchange.time, quote);
        }
        lemma_count_keeps_totals(
            exchange,
            account,
            order,
            deal,
            quantity,
            price,
            answer->Ok_0,
        );
        lemma_value_and_fees(
            price.units(),
            quantity.units(),
            value.units(),
            exchange.fees_percent.units(),
            deal.fees.units(),
            one_unit(),
        );
    }
}

/// What is freed changes no total.
proof fn lemma_total_is_kept(
    account: AccountView,
    cid: Seq<char>,
    time: Timestamp,
    asset: Seq<char>,
)
    requires
        account.release(cid, time) is Some,
        (account.release(cid, time)->0).balances.map.contains_key(asset)
            || account.balances.map.contains_key(asset),
    ensures
        total_units(account.release(cid, time)->0, asset) == total_units(account, asset),
{
}

/// What is counted and set aside changes no total.
proof fn lemma_count_keeps_totals(
    exchange: ExchangeView,
    account: AccountView,
    order: ActiveOrder,
    deal: crate::matching::Settlement<Seq<char>>,
    quantity: Decimal,
    price: Decimal,
    balances: Seq<AssetBalance<Seq<char>>>,
)
    requires
        exchange.count_fill(account, order, deal, quantity, price, balances) is Some,
    ensures
        ({
            let filled = exchange.count_fill(account, order, deal, quantity, price, balances)->0;
            &&& forall|asset: Seq<char>|
                account.balances.map.contains_key(asset) ==> #[trigger] total_units(
                    filled.exchange.account,
                    asset,
                ) == total_units(account, asset)
            &&& filled.notifications matches Some(sent) ==> (sent.trade matches Some(trade)
                && trade.fees.fees == deal.fees)
        }),
{
}

/// The arithmetic of counting a fill needs no rounding.
pub open spec fn counts_exactly(
    order: ActiveOrder,
    quantity: Decimal,
    fees_percent: Decimal,
) -> bool {
    let filled = order.state.filled_quantity.plus(quantity)->0;
    let left = order.quantity.minus(filled)->0;
    &&& order.quantity.units() >= 0
    &&& order.state.filled_quantity.units() >= 0
    &&& adds_up(order.state.filled_quantity, quantity)
    &&& subtracts_up(order.quantity, filled)
    &&& costs_exactly(order.side, left, order.price, fees_percent)
}

/// A fill of an active order is counted: so much more of it is filled. Where something is left, the
/// order stays active with what it may still cost set aside, and is told so; otherwise it is active
/// no more, nothing is set aside for it, and it is told as filled.
pub proof fn law_fill_is_counted(
    exchange: ExchangeView,
    order: ActiveOrder,
    instrument: Instrument<Seq<char>>,
    quantity: Decimal,
    price: Decimal,
)
    requires
        exchange.instruments.lookup(order.key.instrument) == Some(instrument),
        exchange.account.orders_open.lookup(order.key.cid) == Some(order),
        exchange.fill_resting(order, quantity, price) matches Some(filled) && filled.notifications
            is Some,
        counts_exactly(order, quantity, exchange.fees_percent),
    ensures
        ({
            let filled = exchange.fill_resting(order, quantity, price)->0;
            let after = filled.exchange.account;
            let sent = filled.notifications->0;
            let cid = order.key.cid;
            let counted = order.state.filled_quantity.units() + quantity.units();
            let left = order.quantity.units() - counted;
            if left > 0 {
                &&& after.orders_open.map.contains_key(cid)
                &&& after.orders_open.map[cid].state.filled_quantity.units() == counted
                &&& after.reservations.map.contains_key(cid)
                &&& sets_aside(
                    after.reservations.map[cid],
                    instrument,
                    order.side,
                    left,
                    order.price.units(),
                    exchange.fees_percent.units(),
                )
                &&& sent.order matches Some(told) && told.key == order.key && told.price
                    == order.price && told.quantity == order.quantity && told.side == order.side
                    && told.state == OrderState::<Seq<char>>::Active(
                    crate::order::ActiveOrderState::Open(after.orders_open.map[cid].state),
                )
            } else {
                &&& !after.orders_open.map.contains_key(cid)
                &&& !after.reservations.map.contains_key(cid)
                &&& sent.order matches Some(told) && told.key == order.key && told.price
                    == order.price && told.quantity == order.quantity && told.side == order.side
                    && told.state == OrderState::<Seq<char>>::Inactive(
                    crate::order::InactiveOrderState::FullyFilled,
                )
            }
        }),
{
    lemma_sign(order.quantity);
    lemma_sign(order.state.filled_quantity);
    let cid = order.key.cid;
    let released = exchange.account.release(cid, exchange.time)->0;
    law_amount_is_freed(exchange.account, cid, exchange.time);
    let value = quantity.times(price)->0;
    let deal = settlement(order.side, instrument, quantity, value, exchange.fees_percent)->0;
    let (account, answer) = released.fill(
        deal.debit_asset,
        deal.debit_amount,
        deal.credit_asset,
        deal.credit_amount,
        exchange.time,
    )->0;
    assert(account.orders_open == exchange.account.orders_open);
    assert(account.reservations == released.reservations);
    let filled = order.state.filled_quantity.plus(quantity)->0;
    let left = order.quantity.minus(filled)->0;
    if crate::account::reservation_amount(
        order.side,
        left,
        order.price,
        exchange.fees_percent,
    ) is Some {
        lemma_reservation(instrument, order.side, left, order.price, exchange.fees_percent);
    }
}

/// The balances that are told of a fill of an active order are those of the two assets as they then
/// are, the one that was paid with first.
pub proof fn law_fill_tells_the_balances(
    exchange: ExchangeView,
    order: ActiveOrder,
    instrument: Instrument<Seq<char>>,
    quantity: Decimal,
    price: Decimal,
)
    requires
        keyed(exchange.account),
        exchange.instruments.lookup(order.key.instrument) == Some(instrument),
        instrument.underlying.base != instrument.underlying.quote,
        exchange.fill_resting(order, quantity, price) matches Some(filled) && filled.notifications
            is Some,
    ensures
        ({
            let filled = exchange.fill_resting(order, quantity, price)->0;
            let after = filled.exchange.account;
            let told = (filled.notifications->0).balances;
            let (paid, got) = match order.side {
                Side::Buy => (instrument.underlying.quote, instrument.underlying.base),
                Side::Sell => (instrument.underlying.base, instrument.underlying.quote),
            };
            &&& told.len() == 2
            &&& told[0] == after.balances.map[paid]
            &&& told[1] == after.balances.map[got]
            &&& told[0].asset == paid
            &&& told[1].asset == got
        }),
{
    let cid = order.key.cid;
    let released = exchange.account.release(cid, exchange.time)->0;
    let value = quantity.times(price)->0;
    let deal = settlement(order.side, instrument, quantity, value, exchange.fees_percent)->0;
    let (account, answer) = released.fill(
        deal.debit_asset,
        deal.debit_amount,
        deal.credit_asset,
        deal.credit_amount,
        exchange.time,
    )->0;
    if let Ok(balances) = answer {
        assert(balances.len() == 2);
        assert(balances[0].asset == deal.debit_asset);
        assert(balances[1] == account.balances.map[deal.credit_asset]);
        assert(balances[1].asset == deal.credit_asset);
    }
}

/// A public trade fills an active order at the price of the order, for no more than is left of the
/// order and of the trade, and only where the trade is at the price of the order or a worse one for
/// it. So much less of the trade is left for the orders behind it.
pub proof fn law_public_trade_fills_at_the_order_price(
    before: Fills,
    order: ActiveOrder,
    trade_price: Decimal,
    left: Decimal,
)
    requires
        before.trade_one(order, trade_price, left, ConservativeQueue) is Some,
    ensures
        ({
            let (after, rest) = before.trade_one(order, trade_price, left, ConservativeQueue)->0;
            let remaining = crate::account::remaining_quantity(order)->0;
            let reached = match order.side {
                Side::Buy => trade_price.units() <= order.price.units(),
                Side::Sell => trade_price.units() >= order.price.units(),
            };
            let wanted = if remaining.units() <= left.units() {
                remaining
            } else {
                left
            };
            if left.units() <= 0 || !reached || remaining.units() <= 0 {
                after == before && rest == left
            } else {
                exists|quantity: Decimal|
                    {
                        &&& quantity.units() == wanted.units()
                        &&& #[trigger] before.exchange.fill_resting(order, quantity, order.price)
                            == Some(
                            Filled {
                                exchange: after.exchange,
                                notifications: if after.notifications.len()
                                    > before.notifications.len() {
                                    Some(after.notifications.last())
                                } else {
                                    None
                                },
                            },
                        )
                        &&& subtracts_up(left, quantity) ==> rest.units() == left.units()
                            - quantity.units()
                    }
            }
        }),
{
    lemma_nought();
    let remaining = crate::account::remaining_quantity(order)->0;
    let quantity = ConservativeQueue.traded(
        left,
        remaining,
        order.side,
        order.price,
        trade_price,
    );
    if left.units() > 0 && quantity.units() > 0 {
        let (after, rest) = before.trade_one(order, trade_price, left, ConservativeQueue)->0;
        let filled = before.exchange.fill_resting(order, quantity, order.price)->0;
        assert(after == before.then_filled(filled));
        assert(before.exchange.fill_resting(order, quantity, order.price) == Some(
            Filled {
                exchange: after.exchange,
                notifications: if after.notifications.len() > before.notifications.len() {
                    Some(after.notifications.last())
                } else {
                    None
                },
            },
        ));
    }
}

/// What a restored order has set aside is what it may still cost.
pub proof fn law_restored_order_sets_aside_its_cost(
    order: ActiveOrder,
    instruments: Named<Instrument<Seq<char>>>,
    fees_percent: Decimal,
)
    requires
        order.quantity.units() >= 0,
        order.state.filled_quantity.units() >= 0,
        subtracts_up(order.quantity, order.state.filled_quantity),
        costs_exactly(
            order.side,
            order.quantity.minus(order.state.filled_quantity)->0,
            order.price,
            fees_percent,
        ),
    ensures
        crate::account::reservation_of(order, instruments, fees_percent) matches Some(reserved) ==> {
            let left = order.quantity.units() - order.state.filled_quantity.units();
            match reserved {
                Some(reservation) => instruments.map.contains_key(order.key.instrument) && left > 0
                    && sets_aside(
                    reservation,
                    instruments.map[order.key.instrument],
                    order.side,
                    left,
                    order.price.units(),
                    fees_percent.units(),
                ),
                None => !instruments.map.contains_key(order.key.instrument) || left <= 0,
            }
        },
{
    lemma_sign(order.quantity);
    lemma_sign(order.state.filled_quantity);
    let left = order.quantity.minus(order.state.filled_quantity)->0;
    if let Some(instrument) = instruments.lookup(order.key.instrument) {
        if crate::account::reservation_amount(order.side, left, order.price, fees_percent) is Some {
            lemma_reservation(instrument, order.side, left, order.price, fees_percent);
        }
    }
}

/// A request is answered in kind. A question changes nothing: a snapshot has all the balances; the
/// balances, the active orders and the trades that come back are those asked for. A cancellation and
/// a new order are answered about themselves, and the trade of an execution is recorded.
pub proof fn law_request_is_answered_in_kind(
    before: ExchangeView,
    kind: MockExchangeRequestKind,
    after: ExchangeView,
    response: MockExchangeResponse,
    notifications: Option<OpenOrderNotifications>,
)
    requires
        answers(before, kind, after, response, notifications),
    ensures
        match kind {
            MockExchangeRequestKind::FetchAccountSnapshot => after == before && notifications
                is None && (response matches MockExchangeResponse::AccountSnapshot(snapshot)
                && snapshot.exchange == before.exchange && snapshot@.balances
                == before.account.balances.values()),
            MockExchangeRequestKind::FetchBalances { assets } => after == before && notifications
                is None && (response matches MockExchangeResponse::Balances(balances) && forall|
                balance: AssetBalance<Seq<char>>,
            | #[trigger]
                views(balances@).contains(balance) <==> views(assets@).contains(balance.asset)
                    && before.account.balances.values().contains(balance)),
            MockExchangeRequestKind::FetchOrdersOpen { instruments } => after == before
                && notifications is None && (response matches MockExchangeResponse::OrdersOpen(
                orders,
            ) && forall|order: ActiveOrder| #[trigger]
                views(orders@).contains(order) <==> views(instruments@).contains(
                    order.key.instrument,
                ) && before.account.orders_open.values().contains(order)),
            MockExchangeRequestKind::FetchTrades { time_since } => after == before && notifications
                is None && (response matches MockExchangeResponse::Trades(trades) && forall|
                trade: Trade<Seq<char>>,
            | #[trigger]
                views(trades@).contains(trade) <==> before.account.trades.contains(trade)
                    && !trade.time_exchange.before(time_since)),
            MockExchangeRequestKind::CancelOrder(request) => notifications is None && (
            response matches MockExchangeResponse::Cancelled(answer) && answer.key@
                == request.key@),
            MockExchangeRequestKind::OpenOrder(request) => (
            response matches MockExchangeResponse::Opened(answer) && answer.key@ == request.key@
                && answer.side == request.state.side && answer.quantity == request.state.quantity
                && match notifications {
                Some(sent) => sent@.trade matches Some(trade) && after.account.trades
                    == before.account.trades.push(trade),
                None => after.account.trades == before.account.trades,
            }),
        },
{
    match kind {
        MockExchangeRequestKind::FetchBalances { assets } => {
            assert forall|balance: AssetBalance<Seq<char>>| #[trigger]
                balances_for(before.account, views(assets@)).contains(balance) <==> views(
                    assets@,
                ).contains(balance.asset) && before.account.balances.values().contains(
                    balance,
                ) by {
                law_balances_asked_for_are_handed_out(before.account, views(assets@), balance);
            }
        },
        MockExchangeRequestKind::FetchOrdersOpen { instruments } => {
            assert forall|order: ActiveOrder| #[trigger]
                orders_for(before.account, views(instruments@)).contains(order) <==> views(
                    instruments@,
                ).contains(order.key.instrument) && before.account.orders_open.values().contains(
                    order,
                ) by {
                law_orders_asked_for_are_handed_out(before.account, views(instruments@), order);
            }
        },
        MockExchangeRequestKind::FetchTrades { time_since } => {
            let pred = |trade: Trade<Seq<char>>| !trade.time_exchange.before(time_since);
            assert forall|trade: Trade<Seq<char>>| #[trigger]
                trades_since(before.account, time_since).contains(trade)
                    <==> before.account.trades.contains(trade) && !trade.time_exchange.before(
                    time_since,
                ) by {
                lemma_filter_contains(before.account.trades, pred, trade);
            }
        },
        MockExchangeRequestKind::OpenOrder(request) => {
            crate::deals::law_answer_is_about_the_request(before, request@);
            crate::deals::law_trade_is_of_the_request(before, request@);
            crate::deals::law_open_concerns_one_order(before, request@);
        },
        _ => {},
    }
}

/// An exchange starts as it is configured: with its name, its latency and its fees, at the start of
/// 1970, with no order handed out, no market known and no trade made. Its orders are those of the
/// initial state, and so is what is in every balance.
pub proof fn law_exchange_starts_as_configured(
    config: MockExecutionConfig,
    instruments: Named<Instrument<Seq<char>>>,
)
    ensures
        ({
            let start = config.start(instruments);
            let given = AccountView::of_snapshot(config.initial_state@);
            &&& start.exchange == config.mocked_exchange
            &&& start.latency_ms == config.latency_ms
            &&& start.fees_percent == config.fees_percent
            &&& start.instruments == instruments
            &&& start.order_sequence == 0
            &&& start.time.secs == 0 && start.time.nanos == 0
            &&& start.books.keys.len() == 0 && start.books.map.is_empty()
            &&& start.last_trades.keys.len() == 0 && start.last_trades.map.is_empty()
            &&& start.account.orders_open == given.orders_open
            &&& start.account.orders_cancelled == given.orders_cancelled
            &&& start.account.trades.len() == 0
            &&& start.account.balances.keys == given.balances.keys
            &&& forall|asset: Seq<char>| #[trigger]
                given.balances.map.contains_key(asset) ==> start.account.balances.map.contains_key(
                    asset,
                ) && start.account.balances.map[asset].balance == given.balances.map[asset].balance
                    && start.account.balances.map[asset].asset == given.balances.map[asset].asset
        }),
{
    let given = AccountView::of_snapshot(config.initial_state@);
    lemma_restored_keeps(
        given,
        given.orders_open.values(),
        instruments,
        config.fees_percent,
        Timestamp { secs: 0, nanos: 0 },
    );
    lemma_snapshot_has_no_trades(
        AccountView {
            balances: crate::account::balances_by_asset(config.initial_state@.balances),
            orders_open: Named::none(),
            orders_cancelled: Named::none(),
            reservations: Named::none(),
            trades: Seq::empty(),
        },
        config.initial_state@.instruments,
    );
}

/// What is set aside again changes what is set aside, and when a balance was last changed.
proof fn lemma_restored_keeps(
    account: AccountView,
    orders: Seq<ActiveOrder>,
    instruments: Named<Instrument<Seq<char>>>,
    fees_percent: Decimal,
    time: Timestamp,
)
    ensures
        ({
            let after = account.with_reservations(orders, instruments, fees_percent, time);
            &&& after.orders_open == account.orders_open
            &&& after.orders_cancelled == account.orders_cancelled
            &&& after.trades == account.trades
            &&& after.balances.keys == account.balances.keys
            &&& forall|asset: Seq<char>| #[trigger]
                after.balances.map.contains_key(asset) == account.balances.map.contains_key(asset)
            &&& forall|asset: Seq<char>| #[trigger]
                account.balances.map.contains_key(asset) ==> after.balances.map[asset].balance
                    == account.balances.map[asset].balance && after.balances.map[asset].asset
                    == account.balances.map[asset].asset
        }),
    decreases orders.len(),
{
    if orders.len() > 0 {
        lemma_restored_keeps(account, orders.drop_last(), instruments, fees_percent, time);
    }
}

/// Orders bring no trades.
proof fn lemma_snapshot_has_no_trades(
    account: AccountView,
    groups: Seq<crate::account::InstrumentSnapshotView>,
)
    ensures
        account.with_instruments(groups).trades == account.trades,
    decreases groups.len(),
{
    if groups.len() > 0 {
        lemma_snapshot_has_no_trades(account, groups.drop_last());
        lemma_orders_have_no_trades(
            account.with_instruments(groups.drop_last()),
            groups.last().orders,
        );
    }
}

/// Orders bring no trades.
proof fn lemma_orders_have_no_trades(
    account: AccountView,
    orders: Seq<crate::order::Order<Seq<char>, OrderState<Seq<char>>>>,
)
    ensures
        account.with_orders(orders).trades == account.trades,
    decreases orders.len(),
{
    if orders.len() > 0 {
        lemma_orders_have_no_trades(account, orders.drop_last());
    }
}

/// An order of a snapshot is kept as it is: an active one among the active orders, a cancelled one
/// among the cancelled ones, and any other not at all.
pub proof fn law_order_of_a_snapshot_is_kept(
    account: AccountView,
    order: crate::order::Order<Seq<char>, OrderState<Seq<char>>>,
)
    ensures
        ({
            let after = account.with_order(order);
            let cid = order.key.cid;
            &&& after.balances == account.balances
            &&& after.reservations == account.reservations
            &&& after.trades == account.trades
            &&& match order.state {
                OrderState::Active(crate::order::ActiveOrderState::Open(open)) => {
                    &&& after.orders_cancelled == account.orders_cancelled
                    &&& after.orders_open.map.dom() == account.orders_open.map.dom().insert(cid)
                    &&& {
                        let kept = after.orders_open.map[cid];
                        &&& kept.key == order.key
                        &&& kept.side == order.side
                        &&& kept.price == order.price
                        &&& kept.quantity == order.quantity
                        &&& kept.kind == order.kind
                        &&& kept.time_in_force == order.time_in_force
                        &&& kept.state == open
                    }
                },
                OrderState::Inactive(crate::order::InactiveOrderState::Cancelled(cancelled)) => {
                    &&& after.orders_open == account.orders_open
                    &&& after.orders_cancelled.map.dom() == account.orders_cancelled.map.dom().insert(
                        cid,
                    )
                    &&& {
                        let kept = after.orders_cancelled.map[cid];
                        &&& kept.key == order.key
                        &&& kept.side == order.side
                        &&& kept.price == order.price
                        &&& kept.quantity == order.quantity
                        &&& kept.kind == order.kind
                        &&& kept.time_in_force == order.time_in_force
                        &&& kept.state == cancelled
                    }
                },
                _ => after == account,
            }
        }),
{
}

/// A fill of an active order that the balances do not cover is not made: nothing is traded or told,
/// the order stays as it is, and what was set aside for it is set aside again.
pub proof fn law_fill_that_is_not_covered_is_not_made(
    exchange: ExchangeView,
    order: ActiveOrder,
    instrument: Instrument<Seq<char>>,
    quantity: Decimal,
    price: Decimal,
    asset: Seq<char>,
    amount: Decimal,
)
    requires
        exchange.instruments.lookup(order.key.instrument) == Some(instrument),
        instrument.underlying.base != instrument.underlying.quote,
        exchange.fill_resting(order, quantity, price) is Some,
        exchange.account.reservations.lookup(order.key.cid) == Some((asset, amount)),
        exchange.account.balances.map.contains_key(asset),
        free_units(exchange.account, asset) >= 0,
        adds_up(exchange.account.balances.map[asset].balance.free, amount),
        exchange.account.release(order.key.cid, exchange.time) matches Some(released) && {
            let value = quantity.times(price)->0;
            let fees = value.times(exchange.fees_percent)->0;
            &&& subtracts_up(released.balances.map[asset].balance.free, amount)
            &&& match order.side {
                Side::Buy => adds_up(value, fees) && free_units(
                    released,
                    instrument.underlying.quote,
                ) < value.units() + fees.units(),
                Side::Sell => free_units(released, instrument.underlying.base) < quantity.units(),
            }
        },
    ensures
        ({
            let filled = exchange.fill_resting(order, quantity, price)->0;
            let (before, after) = (exchange.account, filled.exchange.account);
            &&& filled.notifications is None
            &&& after.orders_open == before.orders_open
            &&& after.trades == before.trades
            &&& after.reservations.map.contains_key(order.key.cid)
            &&& after.reservations.map[order.key.cid] == (asset, amount)
            &&& free_units(after, asset) == free_units(before, asset)
            &&& total_units(after, asset) == total_units(before, asset)
            &&& forall|other: Seq<char>|
                other != asset ==> #[trigger] after.balances.lookup(other)
                    == before.balances.lookup(other)
        }),
{
    law_amount_is_freed(exchange.account, order.key.cid, exchange.time);
}

} // verus!
