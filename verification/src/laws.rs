//! What holds of the paper exchange as a whole.

use crate::account::{
    paying_asset, remaining_quantity, reservation_amount, AccountView, AssetBalance,
};
use crate::decimal::{lemma_nought, lemma_sign, pow10, Decimal, MAX_SCALE};
use crate::exchange::{ExchangeView, OpenRequestView};
use crate::matching::{may_rest, settlement, Route, Settlement};
use crate::resting::Fills;
use crate::instrument::{Instrument, Side};
use crate::market::{
    best_first, fill_from, trades_through, BookView, ConservativeQueue, MockMarketEventKind,
    NoQueue, QueueModel,
};
use crate::names::{lemma_put_consistent, lemma_without_consistent, Named};
use crate::order::{
    ActiveOrderState, ApiError, InactiveOrderState, Open, Order, OrderError, OrderState, TimeInForce,
};
use crate::text::{law_number_text_is_unique, number_chars};
use crate::time::Timestamp;
use vstd::prelude::*;

verus! {

/// The sum of the numbers is in range and needs no rounding.
pub open spec fn adds_up(a: Decimal, b: Decimal) -> bool {
    a.plus(b) matches Some(sum) && sum.units() == a.units() + b.units()
}

/// The difference of the numbers is in range and needs no rounding.
pub open spec fn subtracts_up(a: Decimal, b: Decimal) -> bool {
    a.minus(b) matches Some(difference) && difference.units() == a.units() - b.units()
}

/// The free balance of the asset, in units of the smallest decimal place.
pub open spec fn free_units(account: AccountView, asset: Seq<char>) -> int {
    account.balances.map[asset].balance.free.units()
}

/// The total balance of the asset, in units of the smallest decimal place.
pub open spec fn total_units(account: AccountView, asset: Seq<char>) -> int {
    account.balances.map[asset].balance.total.units()
}

/// The balance of the asset takes the change without rounding.
pub open spec fn takes_exactly(account: AccountView, asset: Seq<char>, change: Decimal) -> bool {
    adds_up(account.balances.map[asset].balance.free, change) && adds_up(
        account.balances.map[asset].balance.total,
        change,
    )
}

/// A fill takes the debit from one balance and gives the credit to the other, free and total
/// alike, and touches nothing else.
pub proof fn law_fill_moves_both_balances(
    account: AccountView,
    debit_asset: Seq<char>,
    debit_amount: Decimal,
    credit_asset: Seq<char>,
    credit_amount: Decimal,
    time: Timestamp,
)
    requires
        debit_asset != credit_asset,
        account.fill(debit_asset, debit_amount, credit_asset, credit_amount, time) matches Some(
            outcome,
        ) && outcome.1 is Ok,
        debit_amount.valid(),
        takes_exactly(account, debit_asset, debit_amount.negated()),
        takes_exactly(account, credit_asset, credit_amount),
    ensures
        ({
            let after = (account.fill(
                debit_asset,
                debit_amount,
                credit_asset,
                credit_amount,
                time,
            )->0).0;
            &&& free_units(after, debit_asset) == free_units(account, debit_asset)
                - debit_amount.units()
            &&& total_units(after, debit_asset) == total_units(account, debit_asset)
                - debit_amount.units()
            &&& free_units(after, credit_asset) == free_units(account, credit_asset)
                + credit_amount.units()
            &&& total_units(after, credit_asset) == total_units(account, credit_asset)
                + credit_amount.units()
            &&& after == (AccountView { balances: after.balances, ..account })
            &&& forall|asset: Seq<char>|
                asset != debit_asset && asset != credit_asset ==> #[trigger] after.balances.lookup(
                    asset,
                ) == account.balances.lookup(asset)
        }),
{
    lemma_sign(debit_amount);
}

/// A fill without fees conserves value at its price: the change of the quote balance plus the
/// change of the base balance, valued at the price, is zero. A buy pays `value` and gets the
/// quantity, a sell pays the quantity and gets `value`.
pub proof fn law_fill_conserves_value(
    account: AccountView,
    side: Side,
    base: Seq<char>,
    quote: Seq<char>,
    quantity: Decimal,
    price: Decimal,
    value: Decimal,
    time: Timestamp,
)
    requires
        base != quote,
        quantity.valid(),
        value.valid(),
        value.units() * pow10(MAX_SCALE as nat) == quantity.units() * price.units(),
        match side {
            Side::Buy => (account.fill(quote, value, base, quantity, time) matches Some(outcome)
                && outcome.1 is Ok) && takes_exactly(account, quote, value.negated())
                && takes_exactly(account, base, quantity),
            Side::Sell => (account.fill(base, quantity, quote, value, time) matches Some(outcome)
                && outcome.1 is Ok) && takes_exactly(account, base, quantity.negated())
                && takes_exactly(account, quote, value),
        },
    ensures
        ({
            let after = match side {
                Side::Buy => (account.fill(quote, value, base, quantity, time)->0).0,
                Side::Sell => (account.fill(base, quantity, quote, value, time)->0).0,
            };
            let scale = pow10(MAX_SCALE as nat);
            &&& (free_units(after, quote) - free_units(account, quote)) * scale + (free_units(
                after,
                base,
            ) - free_units(account, base)) * price.units() == 0
            &&& (total_units(after, quote) - total_units(account, quote)) * scale + (total_units(
                after,
                base,
            ) - total_units(account, base)) * price.units() == 0
        }),
{
    let scale = pow10(MAX_SCALE as nat);
    let q = quantity.units();
    let v = value.units();
    let p = price.units();
    match side {
        Side::Buy => {
            law_fill_moves_both_balances(account, quote, value, base, quantity, time);
            assert((-v) * scale + q * p == 0) by (nonlinear_arith)
                requires
                    v * scale == q * p,
            ;
        },
        Side::Sell => {
            law_fill_moves_both_balances(account, base, quantity, quote, value, time);
            assert(v * scale + (-q) * p == 0) by (nonlinear_arith)
                requires
                    v * scale == q * p,
            ;
        },
    }
}

/// The arithmetic of an execution needs no rounding: its cost or its proceeds, and what it takes
/// and gives.
pub open spec fn settles_exactly(
    account: AccountView,
    side: Side,
    value: Decimal,
    deal: Settlement<Seq<char>>,
) -> bool {
    &&& match side {
        Side::Buy => adds_up(value, deal.fees),
        Side::Sell => subtracts_up(value, deal.fees),
    }
    &&& deal.debit_amount.valid()
    &&& takes_exactly(account, deal.debit_asset, deal.debit_amount.negated())
    &&& takes_exactly(account, deal.credit_asset, deal.credit_amount)
}

/// An executed order updates both assets of its instrument: a buy takes its value and the fees
/// from the quote balance and adds the quantity to the base balance; a sell takes the quantity
/// from the base balance and adds its value without the fees to the quote balance. What of the
/// order stays active changes no total.
pub proof fn law_execution_updates_both_assets(
    exchange: ExchangeView,
    request: OpenRequestView,
    instrument: Instrument<Seq<char>>,
    quantity: Decimal,
    price: Decimal,
)
    requires
        instrument.underlying.base != instrument.underlying.quote,
        exchange.execute(request, instrument, quantity, price) matches Some(outcome)
            && outcome.notifications is Some,
        ({
            let value = price.times(quantity)->0;
            settles_exactly(
                exchange.account,
                request.state.side,
                value,
                settlement(
                    request.state.side,
                    instrument,
                    quantity,
                    value,
                    exchange.fees_percent,
                )->0,
            )
        }),
    ensures
        ({
            let outcome = exchange.execute(request, instrument, quantity, price)->0;
            let after = outcome.exchange.account;
            let value = price.times(quantity)->0;
            let fees = value.times(exchange.fees_percent)->0;
            let base = instrument.underlying.base;
            let quote = instrument.underlying.quote;
            &&& (outcome.notifications->0).trade matches Some(trade) && trade.fees.fees == fees
                && trade.quantity == quantity && trade.price == price
            &&& match request.state.side {
                Side::Buy => total_units(after, quote) == total_units(exchange.account, quote) - (
                value.units() + fees.units()) && total_units(after, base) == total_units(
                    exchange.account,
                    base,
                ) + quantity.units(),
                Side::Sell => total_units(after, base) == total_units(exchange.account, base)
                    - quantity.units() && total_units(after, quote) == total_units(
                    exchange.account,
                    quote,
                ) + (value.units() - fees.units()),
            }
        }),
{
    let value = price.times(quantity)->0;
    let deal = settlement(
        request.state.side,
        instrument,
        quantity,
        value,
        exchange.fees_percent,
    )->0;
    law_fill_moves_both_balances(
        exchange.account,
        deal.debit_asset,
        deal.debit_amount,
        deal.credit_asset,
        deal.credit_amount,
        exchange.time,
    );
}

/// What was set aside and is freed again is back: the free balance is what it was, and nothing is
/// set aside for the order any more.
pub proof fn law_release_undoes_reserve(
    account: AccountView,
    cid: Seq<char>,
    asset: Seq<char>,
    amount: Decimal,
    time_reserved: Timestamp,
    time_released: Timestamp,
)
    requires
        account.reservations.consistent(),
        !account.reservations.has(cid),
        account.reserve(cid, asset, amount, time_reserved) matches Some(outcome) && outcome.1 is Ok,
        subtracts_up(account.balances.map[asset].balance.free, amount),
        adds_up(account.balances.map[asset].balance.free.minus(amount)->0, amount),
    ensures
        ({
            let reserved = (account.reserve(cid, asset, amount, time_reserved)->0).0;
            let released = reserved.release(cid, time_released);
            &&& free_units(reserved, asset) == free_units(account, asset) - amount.units()
            &&& total_units(reserved, asset) == total_units(account, asset)
            &&& released matches Some(after) && free_units(after, asset) == free_units(
                account,
                asset,
            ) && total_units(after, asset) == total_units(account, asset) && after.reservations
                == account.reservations && after == (AccountView {
                balances: after.balances,
                ..account
            })
        }),
{
    let reserved = (account.reserve(cid, asset, amount, time_reserved)->0).0;
    lemma_without_put(account.reservations, cid, (asset, amount));
}

/// Taking out a name that was just put in gives the map back.
pub proof fn lemma_without_put<T>(map: Named<T>, key: Seq<char>, value: T)
    requires
        map.consistent(),
        !map.has(key),
    ensures
        map.put(key, value).without(key) == map,
{
    let put = map.put(key, value);
    put.keys.index_of_first_ensures(key);
    assert(put.keys.last() == key);
    assert(!map.keys.contains(key));
    assert forall|i: int| 0 <= i < map.keys.len() implies put.keys[i] != key by {
        assert(map.keys.contains(map.keys[i]));
    }
    assert(put.without(key).keys =~= map.keys);
    assert(put.without(key).map =~= map.map);
}

/// A limit order that becomes active and is then cancelled leaves the balances as they were: what
/// it set aside is free again, and the order is among the cancelled ones.
pub proof fn law_cancel_undoes_rest(
    exchange: ExchangeView,
    request: OpenRequestView,
    instrument: Instrument<Seq<char>>,
)
    requires
        exchange.account.reservations.consistent(),
        exchange.account.orders_open.consistent(),
        !exchange.account.reservations.has(request.key.cid),
        !exchange.account.orders_open.has(request.key.cid),
        exchange.rest(request, instrument) matches Some(outcome) && outcome.response.state is Ok,
        ({
            let asset = paying_asset(request.state.side, instrument);
            let amount = reservation_amount(
                request.state.side,
                request.state.quantity.magnitude(),
                request.state.price,
                exchange.fees_percent,
            )->0;
            let free = exchange.account.balances.map[asset].balance.free;
            subtracts_up(free, amount) && adds_up(free.minus(amount)->0, amount)
        }),
    ensures
        ({
            let asset = paying_asset(request.state.side, instrument);
            let rested = exchange.rest(request, instrument)->0.exchange;
            let cancelled = rested.account.cancel(request.key.cid, None, rested.time);
            &&& rested.account.orders_open.has(request.key.cid)
            &&& rested.account.reservations.has(request.key.cid)
            &&& cancelled matches Some((after, Ok(_))) && free_units(after, asset) == free_units(
                exchange.account,
                asset,
            ) && total_units(after, asset) == total_units(exchange.account, asset)
                && after.reservations == exchange.account.reservations && after.orders_open
                == exchange.account.orders_open && after.orders_cancelled.has(request.key.cid)
        }),
{
    let asset = paying_asset(request.state.side, instrument);
    let amount = reservation_amount(
        request.state.side,
        request.state.quantity.magnitude(),
        request.state.price,
        exchange.fees_percent,
    )->0;
    law_release_undoes_reserve(
        exchange.account,
        request.key.cid,
        asset,
        amount,
        exchange.time,
        exchange.time,
    );
    let order = exchange.active_order(request, (exchange.next_id()->0).0, Decimal::nought());
    lemma_without_put(exchange.account.orders_open, request.key.cid, order);
}

/// A request whose client order id is active is refused, and nothing changes.
pub proof fn law_active_id_is_refused(exchange: ExchangeView, request: OpenRequestView)
    requires
        exchange.is_active(request.key.cid),
    ensures
        exchange.open(request) matches Some(outcome) && outcome.exchange == exchange
            && outcome.notifications is None && outcome.response.state == Err::<
            Open<Seq<char>>,
            OrderError<Seq<char>>,
        >(
            OrderError::Rejected(
                ApiError::OrderRejected("client order id is already active"@),
            ),
        ),
{
}

/// A resting order sets aside what it may cost: that much less is free, the total stays, and the
/// order is active with nothing filled.
pub proof fn law_resting_order_sets_aside(
    exchange: ExchangeView,
    request: OpenRequestView,
    instrument: Instrument<Seq<char>>,
)
    requires
        exchange.rest(request, instrument) matches Some(outcome) && outcome.response.state is Ok,
        subtracts_up(
            exchange.account.balances.map[paying_asset(
                request.state.side,
                instrument,
            )].balance.free,
            reservation_amount(
                request.state.side,
                request.state.quantity.magnitude(),
                request.state.price,
                exchange.fees_percent,
            )->0,
        ),
    ensures
        ({
            let asset = paying_asset(request.state.side, instrument);
            let amount = reservation_amount(
                request.state.side,
                request.state.quantity.magnitude(),
                request.state.price,
                exchange.fees_percent,
            )->0;
            let after = exchange.rest(request, instrument)->0.exchange.account;
            &&& free_units(after, asset) == free_units(exchange.account, asset) - amount.units()
            &&& total_units(after, asset) == total_units(exchange.account, asset)
            &&& after.reservations.lookup(request.key.cid) == Some((asset, amount))
            &&& after.orders_open.lookup(request.key.cid) matches Some(order)
                && order.state.filled_quantity == Decimal::nought()
            &&& after.trades == exchange.account.trades
        }),
{
}

/// Every cancellation is answered: an active order is cancelled, unless another id is asked for,
/// and anything else is rejected with a reason. It is never a failure to reach the exchange.
pub proof fn law_cancellation_is_answered(
    account: AccountView,
    cid: Seq<char>,
    id: Option<Seq<char>>,
    time: Timestamp,
)
    ensures
        account.cancel(cid, id, time) matches Some((after, answer)) ==> match answer {
            Ok(cancelled) => account.orders_open.lookup(cid) matches Some(order) && cancelled.id
                == order.state.id && (id matches Some(id) ==> id == order.state.id)
                && !after.orders_open.has(cid) && !after.reservations.has(cid)
                && after.orders_cancelled.has(cid),
            Err(error) => after == account && (error matches OrderError::Rejected(
                ApiError::OrderRejected(_),
            )) && (account.orders_open.lookup(cid) matches Some(order) ==> id is Some && id->0
                != order.state.id),
        },
{
}

/// An id that was handed out is never handed out again: the sequence only goes up, and different
/// numbers have different ids.
pub proof fn law_order_ids_never_repeat(exchange: ExchangeView, request: OpenRequestView)
    ensures
        exchange.open(request) matches Some(outcome) ==> exchange.order_sequence
            <= outcome.exchange.order_sequence <= exchange.order_sequence + 1,
        exchange.open(request) matches Some(outcome) ==> outcome.response.state matches Ok(open)
            ==> open.id == number_chars(exchange.order_sequence as nat)
            && outcome.exchange.order_sequence == exchange.order_sequence + 1,
        forall|earlier: u64|
            earlier < exchange.order_sequence ==> #[trigger] number_chars(earlier as nat)
                != number_chars(exchange.order_sequence as nat),
{
    assert forall|earlier: u64| earlier < exchange.order_sequence implies #[trigger] number_chars(
        earlier as nat,
    ) != number_chars(exchange.order_sequence as nat) by {
        if number_chars(earlier as nat) == number_chars(exchange.order_sequence as nat) {
            law_number_text_is_unique(earlier as nat, exchange.order_sequence as nat);
        }
    }
}

/// A post-only order is never executed when it comes.
pub proof fn law_post_only_never_executes(exchange: ExchangeView, request: OpenRequestView)
    requires
        request.state.kind is Limit,
        request.state.time_in_force == (TimeInForce::GoodUntilCancelled { post_only: true }),
    ensures
        exchange.open(request) matches Some(outcome) ==> outcome.notifications is None
            && outcome.exchange.account.trades == exchange.account.trades,
{
}

/// A fill-or-kill order is executed in full or refused, and never stays active.
pub proof fn law_fill_or_kill_is_all_or_nothing(exchange: ExchangeView, request: OpenRequestView)
    requires
        request.state.time_in_force is FillOrKill,
    ensures
        exchange.open(request) matches Some(outcome) ==> {
            &&& outcome.notifications matches Some(sent) ==> (sent.trade matches Some(trade)
                && trade.quantity.units() >= request.state.quantity.magnitude().units())
            &&& outcome.notifications is None ==> outcome.response.state is Err
            &&& outcome.exchange.account.orders_open == exchange.account.orders_open
            &&& outcome.exchange.account.reservations == exchange.account.reservations
        },
{
}

/// An immediate-or-cancel order never stays active; what of it is not executed has expired.
pub proof fn law_immediate_or_cancel_never_rests(exchange: ExchangeView, request: OpenRequestView)
    requires
        request.state.time_in_force is ImmediateOrCancel,
    ensures
        exchange.open(request) matches Some(outcome) ==> {
            &&& outcome.exchange.account.orders_open == exchange.account.orders_open
            &&& outcome.exchange.account.reservations == exchange.account.reservations
            &&& outcome.notifications matches Some(sent) ==> (sent.order matches Some(order)
                && sent.trade matches Some(trade) && order.state is Inactive && (
            request.state.quantity.magnitude().minus(trade.quantity)->0.units() > 0
                ==> order.state == OrderState::<Seq<char>>::Inactive(InactiveOrderState::Expired)))
        },
{
}

/// What is left of an executed order, market or limit, follows its time in force: where the order
/// may stay active it does, with what was executed, and otherwise it has expired. An order is
/// reported as filled just where nothing is left of it.
pub proof fn law_remainder_follows_time_in_force(exchange: ExchangeView, request: OpenRequestView)
    ensures
        exchange.open(request) matches Some(outcome) ==> (outcome.notifications matches Some(sent)
            ==> (sent.order matches Some(order) && sent.trade matches Some(trade) && {
            let remaining = request.state.quantity.magnitude().minus(trade.quantity)->0;
            let account = outcome.exchange.account;
            if remaining.units() > 0 && may_rest(request.state.time_in_force) {
                &&& order.state matches OrderState::Active(ActiveOrderState::Open(open))
                &&& open.filled_quantity == trade.quantity
                &&& account.orders_open.lookup(request.key.cid) matches Some(resting)
                    && resting.state == open
            } else {
                &&& order.state == OrderState::<Seq<char>>::Inactive(
                    if remaining.units() > 0 {
                        InactiveOrderState::Expired
                    } else {
                        InactiveOrderState::FullyFilled
                    },
                )
                &&& account.orders_open == exchange.account.orders_open
                &&& account.reservations == exchange.account.reservations
            }
        })),
{
}

/// Every balance, order and reservation comes once, and stands under its own name.
pub open spec fn keyed(account: AccountView) -> bool {
    &&& account.balances.consistent()
    &&& account.orders_open.consistent()
    &&& account.orders_cancelled.consistent()
    &&& account.reservations.consistent()
    &&& forall|asset: Seq<char>| #[trigger]
        account.balances.map.contains_key(asset) ==> account.balances.map[asset].asset == asset
    &&& forall|cid: Seq<char>| #[trigger]
        account.orders_open.map.contains_key(cid) ==> account.orders_open.map[cid].key.cid == cid
    &&& forall|cid: Seq<char>| #[trigger]
        account.orders_cancelled.map.contains_key(cid)
            ==> account.orders_cancelled.map[cid].key.cid == cid
}

/// A change of a balance keeps everything under its own name.
proof fn lemma_delta_keyed(account: AccountView, asset: Seq<char>, delta: Decimal, time: Timestamp)
    requires
        keyed(account),
    ensures
        account.delta(asset, delta, time) matches Some(outcome) ==> keyed(outcome.0),
{
    broadcast use lemma_put_consistent;

}

/// A fill keeps everything under its own name.
proof fn lemma_fill_keyed(
    account: AccountView,
    debit_asset: Seq<char>,
    debit_amount: Decimal,
    credit_asset: Seq<char>,
    credit_amount: Decimal,
    time: Timestamp,
)
    requires
        keyed(account),
    ensures
        account.fill(debit_asset, debit_amount, credit_asset, credit_amount, time) matches Some(
            outcome,
        ) ==> keyed(outcome.0),
{
    lemma_delta_keyed(account, debit_asset, debit_amount.negated(), time);
    match account.delta(debit_asset, debit_amount.negated(), time) {
        Some((debited, _)) => {
            lemma_delta_keyed(debited, credit_asset, credit_amount, time);
        },
        None => {},
    }
}

/// Setting aside and freeing keep everything under its own name.
proof fn lemma_reserve_keyed(
    account: AccountView,
    cid: Seq<char>,
    asset: Seq<char>,
    amount: Decimal,
    time: Timestamp,
)
    requires
        keyed(account),
    ensures
        account.reserve(cid, asset, amount, time) matches Some(outcome) ==> keyed(outcome.0),
        account.release(cid, time) matches Some(after) ==> keyed(after),
{
    broadcast use {lemma_put_consistent, lemma_without_consistent};

}

/// A request for a new order keeps everything under its own name: no two active orders share a
/// client order id.
pub proof fn law_open_keeps_names(exchange: ExchangeView, request: OpenRequestView)
    requires
        keyed(exchange.account),
    ensures
        exchange.open(request) matches Some(outcome) ==> keyed(outcome.exchange.account),
{
    broadcast use {lemma_put_consistent, lemma_without_consistent};

    let account = exchange.account;
    match exchange.instruments.lookup(request.key.instrument) {
        Some(instrument) => match exchange.route(request) {
            Some(Route::Rest) => {
                match reservation_amount(
                    request.state.side,
                    request.state.quantity.magnitude(),
                    request.state.price,
                    exchange.fees_percent,
                ) {
                    Some(amount) => {
                        lemma_reserve_keyed(
                            account,
                            request.key.cid,
                            paying_asset(request.state.side, instrument),
                            amount,
                            exchange.time,
                        );
                    },
                    None => {},
                }
            },
            Some(Route::Execute(quantity, price)) => {
                match price.times(quantity) {
                    Some(value) => match settlement(
                        request.state.side,
                        instrument,
                        quantity,
                        value,
                        exchange.fees_percent,
                    ) {
                        Some(deal) => lemma_settle_keyed(exchange, request, deal),
                        None => {},
                    },
                    None => {},
                }
            },
            _ => {},
        },
        None => {},
    }
}

/// An execution keeps everything under its own name.
proof fn lemma_settle_keyed(
    exchange: ExchangeView,
    request: OpenRequestView,
    deal: Settlement<Seq<char>>,
)
    requires
        keyed(exchange.account),
    ensures
        forall|quantity: Decimal, price: Decimal, remaining: Decimal, reserved: Option<Decimal>|
            exchange.settle(request, deal, quantity, price, remaining, reserved) is Some ==> keyed(
                (#[trigger] exchange.settle(
                    request,
                    deal,
                    quantity,
                    price,
                    remaining,
                    reserved,
                ))->0.exchange.account,
            ),
{
    broadcast use {lemma_put_consistent, lemma_without_consistent};

    lemma_fill_keyed(
        exchange.account,
        deal.debit_asset,
        deal.debit_amount,
        deal.credit_asset,
        deal.credit_amount,
        exchange.time,
    );
    assert forall|quantity: Decimal, price: Decimal, remaining: Decimal, reserved: Option<Decimal>|
        exchange.settle(request, deal, quantity, price, remaining, reserved) is Some implies keyed(
        (#[trigger] exchange.settle(
            request,
            deal,
            quantity,
            price,
            remaining,
            reserved,
        ))->0.exchange.account,
    ) by {
        match exchange.account.fill(
            deal.debit_asset,
            deal.debit_amount,
            deal.credit_asset,
            deal.credit_amount,
            exchange.time,
        ) {
            Some((filled, Ok(_))) => match reserved {
                Some(amount) => {
                    lemma_reserve_keyed(
                        filled,
                        request.key.cid,
                        deal.debit_asset,
                        amount,
                        exchange.time,
                    );
                },
                None => {},
            },
            _ => {},
        }
    }
}

/// A cancellation keeps everything under its own name.
pub proof fn law_cancel_keeps_names(
    account: AccountView,
    cid: Seq<char>,
    id: Option<Seq<char>>,
    time: Timestamp,
)
    requires
        keyed(account),
    ensures
        account.cancel(cid, id, time) matches Some(outcome) ==> keyed(outcome.0),
{
    broadcast use {lemma_put_consistent, lemma_without_consistent};

    lemma_reserve_keyed(account, cid, cid, Decimal::nought(), time);
}

/// A fill of an active order keeps everything under its own name.
pub(crate) proof fn lemma_fill_resting_keyed(
    exchange: ExchangeView,
    order: Order<Seq<char>, Open<Seq<char>>>,
    quantity: Decimal,
    price: Decimal,
)
    requires
        keyed(exchange.account),
    ensures
        exchange.fill_resting(order, quantity, price) matches Some(filled) ==> keyed(
            filled.exchange.account,
        ),
{
    broadcast use {lemma_put_consistent, lemma_without_consistent};

    let cid = order.key.cid;
    match exchange.instruments.lookup(order.key.instrument) {
        Some(instrument) => match quantity.times(price) {
            Some(value) => match settlement(
                order.side,
                instrument,
                quantity,
                value,
                exchange.fees_percent,
            ) {
                Some(deal) => {
                    lemma_reserve_keyed(
                        exchange.account,
                        cid,
                        deal.debit_asset,
                        Decimal::nought(),
                        exchange.time,
                    );
                    match exchange.account.release(cid, exchange.time) {
                        Some(released) => {
                            lemma_fill_keyed(
                                released,
                                deal.debit_asset,
                                deal.debit_amount,
                                deal.credit_asset,
                                deal.credit_amount,
                                exchange.time,
                            );
                            match released.fill(
                                deal.debit_asset,
                                deal.debit_amount,
                                deal.credit_asset,
                                deal.credit_amount,
                                exchange.time,
                            ) {
                                Some((account, Err(_))) => {
                                    match exchange.account.reservations.lookup(cid) {
                                        Some((asset, amount)) => {
                                            lemma_reserve_keyed(
                                                account,
                                                cid,
                                                asset,
                                                amount,
                                                exchange.time,
                                            );
                                        },
                                        None => {},
                                    }
                                },
                                Some((account, Ok(balances))) => {
                                    lemma_count_fill_keyed(
                                        exchange,
                                        account,
                                        order,
                                        deal,
                                        quantity,
                                        price,
                                        balances,
                                    );
                                },
                                None => {},
                            }
                        },
                        None => {},
                    }
                },
                None => {},
            },
            None => {},
        },
        None => {},
    }
}

/// Counting a fill keeps everything under its own name.
proof fn lemma_count_fill_keyed(
    exchange: ExchangeView,
    account: AccountView,
    order: Order<Seq<char>, Open<Seq<char>>>,
    deal: Settlement<Seq<char>>,
    quantity: Decimal,
    price: Decimal,
    balances: Seq<AssetBalance<Seq<char>>>,
)
    requires
        keyed(account),
    ensures
        exchange.count_fill(account, order, deal, quantity, price, balances) matches Some(filled)
            ==> keyed(filled.exchange.account),
{
    broadcast use {lemma_put_consistent, lemma_without_consistent};

    let cid = order.key.cid;
    match order.state.filled_quantity.magnitude().plus(quantity) {
        Some(filled) => match order.quantity.magnitude().minus(filled) {
            Some(remaining) => {
                let counted = ExchangeView::with_filled(account, cid, filled);
                assert(keyed(counted));
                match reservation_amount(
                    order.side,
                    remaining,
                    order.price,
                    exchange.fees_percent,
                ) {
                    Some(amount) => {
                        lemma_reserve_keyed(
                            counted,
                            cid,
                            deal.debit_asset,
                            amount,
                            exchange.time,
                        );
                    },
                    None => {},
                }
            },
            None => {},
        },
        None => {},
    }
}

/// What a book does to active orders keeps everything under its own name.
proof fn lemma_touch_all_keyed<Q: QueueModel>(
    exchange: ExchangeView,
    orders: Seq<Order<Seq<char>, Open<Seq<char>>>>,
    book: BookView,
    queue: Q,
)
    requires
        keyed(exchange.account),
    ensures
        exchange.touch_all(orders, book, queue) matches Some(fills) ==> keyed(
            fills.exchange.account,
        ),
    decreases orders.len(),
{
    if orders.len() > 0 {
        lemma_touch_all_keyed(exchange, orders.drop_last(), book, queue);
        match exchange.touch_all(orders.drop_last(), book, queue) {
            Some(before) => {
                let order = orders.last();
                match remaining_quantity(order) {
                    Some(remaining) => match fill_from(
                        order.side,
                        book.facing(order.side),
                        remaining,
                        Some(order.price),
                        queue,
                    ) {
                        Some(Some((quantity, price))) => {
                            lemma_fill_resting_keyed(before.exchange, order, quantity, price);
                        },
                        _ => {},
                    },
                    None => {},
                }
            },
            None => {},
        }
    }
}

/// What a public trade does to active orders keeps everything under its own name.
proof fn lemma_trade_all_keyed<Q: QueueModel>(
    exchange: ExchangeView,
    orders: Seq<Order<Seq<char>, Open<Seq<char>>>>,
    trade_price: Decimal,
    trade_quantity: Decimal,
    queue: Q,
)
    requires
        keyed(exchange.account),
    ensures
        exchange.trade_all(orders, trade_price, trade_quantity, queue) matches Some(outcome)
            ==> keyed(outcome.0.exchange.account),
    decreases orders.len(),
{
    if orders.len() > 0 {
        lemma_trade_all_keyed(exchange, orders.drop_last(), trade_price, trade_quantity, queue);
        match exchange.trade_all(orders.drop_last(), trade_price, trade_quantity, queue) {
            Some((before, left)) => {
                let order = orders.last();
                match remaining_quantity(order) {
                    Some(remaining) => {
                        let quantity = queue.traded(
                            left,
                            remaining,
                            order.side,
                            order.price,
                            trade_price,
                        );
                        lemma_fill_resting_keyed(before.exchange, order, quantity, order.price);
                    },
                    None => {},
                }
            },
            None => {},
        }
    }
}

/// A market event keeps everything under its own name.
pub proof fn law_market_keeps_names<Q: QueueModel>(
    exchange: ExchangeView,
    instrument: Seq<char>,
    time: Timestamp,
    kind: MockMarketEventKind,
    queue: Q,
)
    requires
        keyed(exchange.account),
    ensures
        exchange.market(instrument, time, kind, queue) matches Some(fills) ==> keyed(
            fills.exchange.account,
        ),
{
    match kind {
        MockMarketEventKind::OrderBook { bids, asks } => {
            let book = BookView {
                bids: best_first(Side::Sell, bids@),
                asks: best_first(Side::Buy, asks@),
            };
            let seen = ExchangeView {
                time,
                books: exchange.books.put(instrument, book),
                ..exchange
            };
            lemma_touch_all_keyed(seen, seen.active_orders(instrument), book, queue);
        },
        MockMarketEventKind::Trade { price, quantity } => {
            let seen = ExchangeView {
                time,
                last_trades: exchange.last_trades.put(instrument, price),
                ..exchange
            };
            lemma_trade_all_keyed(seen, seen.active_orders(instrument), price, quantity, queue);
        },
    }
}

/// The model that fills on touch never fills on a public trade: the account stays as it is.
pub proof fn law_touch_model_ignores_trades(
    exchange: ExchangeView,
    orders: Seq<Order<Seq<char>, Open<Seq<char>>>>,
    trade_price: Decimal,
    trade_quantity: Decimal,
)
    ensures
        exchange.trade_all(orders, trade_price, trade_quantity, NoQueue) matches Some(outcome)
            ==> outcome.0.exchange == exchange && outcome.0.notifications.len() == 0,
    decreases orders.len(),
{
    lemma_nought();
    if orders.len() > 0 {
        law_touch_model_ignores_trades(
            exchange,
            orders.drop_last(),
            trade_price,
            trade_quantity,
        );
    }
}

/// The conservative model fills an order only on a public trade at its price or better.
pub proof fn law_conservative_model_waits_for_trade_through(
    exchange: ExchangeView,
    order: Order<Seq<char>, Open<Seq<char>>>,
    trade_price: Decimal,
    left: Decimal,
)
    requires
        !trades_through(order.side, order.price, trade_price),
    ensures
        ({
            let before = Fills { exchange, notifications: Seq::empty() };
            before.trade_one(order, trade_price, left, ConservativeQueue) matches Some(outcome)
                ==> outcome == (before, left)
        }),
{
    lemma_nought();
}

/// An order that a fill leaves active has something left to be filled, and counts the fill.
pub proof fn law_filled_order_stays_only_with_something_left(
    exchange: ExchangeView,
    order: Order<Seq<char>, Open<Seq<char>>>,
    quantity: Decimal,
    price: Decimal,
)
    requires
        keyed(exchange.account),
        exchange.fill_resting(order, quantity, price) matches Some(filled)
            && filled.notifications is Some,
    ensures
        ({
            let filled = exchange.fill_resting(order, quantity, price)->0;
            let sent = filled.notifications->0;
            let counted = order.state.filled_quantity.magnitude().plus(quantity)->0;
            &&& sent.trade matches Some(trade) && trade.quantity == quantity && trade.price == price
                && trade.order_id == order.state.id
            &&& filled.exchange.account.trades == exchange.account.trades.push(sent.trade->0)
            &&& filled.exchange.account.orders_open.has(order.key.cid) ==> {
                &&& filled.exchange.account.orders_open.map[order.key.cid].state.filled_quantity
                    == counted
                &&& order.quantity.magnitude().minus(counted)->0.units() > 0
            }
        }),
{
}

} // verus!
