//! What becomes of a request for an order: what is answered, what it costs, and what is set aside.

use crate::account::AccountView;
use crate::conduct::left_alone;
use crate::decimal::{lemma_nought, lemma_sign, pow10, Decimal, MAX_SCALE};
use crate::exchange::{ExchangeView, OpenRequestView};
use crate::instrument::{Instrument, InstrumentSpec, Side};
use crate::laws::{
    adds_up, free_units, keyed, law_execution_updates_both_assets, subtracts_up, takes_exactly,
    total_units,
};
use crate::matching::{broken_rule, settlement};
use crate::order::{ActiveOrderState, ApiError, InactiveOrderState, OrderError, OrderState};
use crate::text::number_chars;
use crate::time::Timestamp;
use vstd::prelude::*;

verus! {

/// One, in units of the smallest decimal place.
pub open spec fn one_unit() -> int {
    pow10(MAX_SCALE as nat)
}

/// The product of the numbers is in range and needs no rounding.
pub open spec fn multiplies_up(a: Decimal, b: Decimal) -> bool {
    a.times(b) matches Some(product) && product.units() * one_unit() == a.units() * b.units()
}

/// Every request is answered about itself: the answer repeats what was asked for, with the price
/// of the execution where there was one. An order that is accepted has the next id and the time of
/// the exchange, and just what was traded is filled.
pub proof fn law_answer_is_about_the_request(exchange: ExchangeView, request: OpenRequestView)
    ensures
        exchange.open(request) matches Some(outcome) ==> {
            &&& outcome.response.key == request.key
            &&& outcome.response.side == request.state.side
            &&& outcome.response.quantity == request.state.quantity
            &&& outcome.response.kind == request.state.kind
            &&& outcome.response.time_in_force == request.state.time_in_force
            &&& outcome.notifications is None ==> outcome.response.price == request.state.price
            &&& outcome.response.state matches Ok(open) ==> {
                &&& open.id == number_chars(exchange.order_sequence as nat)
                &&& outcome.exchange.order_sequence == exchange.order_sequence + 1
                &&& open.time_exchange == exchange.time
                &&& match outcome.notifications {
                    Some(sent) => sent.trade matches Some(trade) && open.filled_quantity
                        == trade.quantity && outcome.response.price == trade.price,
                    None => open.filled_quantity.units() == 0,
                }
            }
            &&& outcome.response.state is Err ==> outcome.notifications is None
        },
{
    lemma_nought();
}

/// The trade of an execution is of the order that was asked for, and the order that is told is the
/// one asked for.
pub proof fn law_trade_is_of_the_request(exchange: ExchangeView, request: OpenRequestView)
    ensures
        exchange.open(request) matches Some(outcome) ==> (outcome.notifications matches Some(sent)
            ==> {
            &&& outcome.response.state is Ok
            &&& sent.trade matches Some(trade) && {
                &&& trade.instrument == request.key.instrument
                &&& trade.strategy == request.key.strategy
                &&& trade.side == request.state.side
                &&& trade.time_exchange == exchange.time
                &&& trade.id == number_chars(exchange.order_sequence as nat)
                &&& trade.order_id == trade.id
            }
            &&& sent.order matches Some(order) && {
                &&& order.key == request.key
                &&& order.side == request.state.side
                &&& order.quantity == request.state.quantity
                &&& order.kind == request.state.kind
                &&& order.time_in_force == request.state.time_in_force
                &&& order.state is Active ==> order.price == request.state.price
                &&& order.state is Inactive ==> order.price == (sent.trade->0).price
            }
        }),
{
}

/// The assets of the instrument that is asked for.
pub open spec fn is_asset_of(
    exchange: ExchangeView,
    request: OpenRequestView,
    asset: Seq<char>,
) -> bool {
    exchange.instruments.lookup(request.key.instrument) matches Some(instrument) && (asset
        == instrument.underlying.base || asset == instrument.underlying.quote)
}

/// A request for an order concerns that order and the two assets of its instrument: every other
/// order, reservation and balance stays as it is, and nothing is cancelled.
pub proof fn law_open_concerns_one_order(exchange: ExchangeView, request: OpenRequestView)
    requires
        exchange.open(request) is Some,
    ensures
        ({
            let outcome = exchange.open(request)->0;
            let (before, after) = (exchange.account, outcome.exchange.account);
            &&& forall|other: Seq<char>|
                other != request.key.cid ==> #[trigger] left_alone(before, after, other)
            &&& forall|asset: Seq<char>|
                !is_asset_of(exchange, request, asset) ==> #[trigger] after.balances.lookup(asset)
                    == before.balances.lookup(asset)
            &&& after.orders_cancelled == before.orders_cancelled
            &&& after.trades == before.trades
            &&& outcome.exchange.time == exchange.time
            &&& outcome.exchange.fees_percent == exchange.fees_percent
            &&& outcome.exchange.instruments == exchange.instruments
            &&& outcome.exchange.books == exchange.books
            &&& outcome.exchange.last_trades == exchange.last_trades
        }),
{
}

/// A refused request leaves every order and what is set aside as they are.
pub proof fn law_refused_request_opens_nothing(exchange: ExchangeView, request: OpenRequestView)
    ensures
        exchange.open(request) matches Some(outcome) ==> (outcome.response.state is Err ==> {
            &&& outcome.notifications is None
            &&& outcome.exchange.account.orders_open == exchange.account.orders_open
            &&& outcome.exchange.account.reservations == exchange.account.reservations
        }),
{
}

/// An order without a positive price and a positive quantity is refused, as is one for an
/// instrument that the exchange does not know and one whose id an active order has. Nothing
/// changes then.
pub proof fn law_request_out_of_place_is_refused(exchange: ExchangeView, request: OpenRequestView)
    requires
        keyed(exchange.account),
        request.state.price.units() <= 0 || request.state.quantity.units() <= 0
            || !exchange.instruments.map.contains_key(request.key.instrument)
            || exchange.account.orders_open.map.contains_key(request.key.cid),
    ensures
        exchange.open(request) matches Some(outcome) && outcome.exchange == exchange
            && outcome.notifications is None && outcome.response.state is Err,
        exchange.open(request) matches Some(outcome) && (request.state.price.units() > 0
            && request.state.quantity.units() > 0
            && !exchange.account.orders_open.map.contains_key(request.key.cid)
            ==> (outcome.response.state matches Err(
            OrderError::Rejected(ApiError::InstrumentInvalid(name, _)),
        ) && name == request.key.instrument)),
{
    let orders = exchange.account.orders_open;
    let cid = request.key.cid;
    if orders.map.contains_key(cid) {
        assert(orders.keys.contains(cid));
        let i = choose|i: int| 0 <= i < orders.keys.len() && orders.keys[i] == cid;
        assert(orders.values()[i].key.cid == cid);
        assert(exchange.is_active(cid));
    } else if exchange.is_active(cid) {
        let i = choose|i: int|
            0 <= i < orders.values().len() && (#[trigger] orders.values()[i]).key.cid == cid;
        assert(orders.keys.contains(orders.keys[i]));
        assert(orders.map.contains_key(orders.keys[i]));
    }
}

/// The number is a multiple of the step.
pub open spec fn is_multiple(number: Decimal, step: Decimal) -> bool {
    exists|count: int| #[trigger] (count * step.units()) == number.units()
}

/// What is left of a number behind a multiple is nothing just where the number is a multiple.
proof fn lemma_multiple(number: Decimal, step: Decimal)
    requires
        step.units() != 0,
    ensures
        crate::decimal::whole_remainder(number.units(), step.units()) == 0 <==> is_multiple(
            number,
            step,
        ),
{
    let (a, b) = (number.units(), step.units());
    let divisor = if b < 0 {
        -b
    } else {
        b
    };
    let size = if a < 0 {
        -a
    } else {
        a
    };
    let sign: int = if (a < 0) == (b < 0) {
        1
    } else {
        -1
    };
    vstd::arithmetic::div_mod::lemma_fundamental_div_mod(size, divisor);
    let quotient = size / divisor;
    if size % divisor == 0 {
        assert((sign * quotient) * b == a) by (nonlinear_arith)
            requires
                size == divisor * quotient,
                divisor == (if b < 0 {
                    -b
                } else {
                    b
                }),
                size == (if a < 0 {
                    -a
                } else {
                    a
                }),
                sign == (if (a < 0) == (b < 0) {
                    1int
                } else {
                    -1int
                }),
        ;
    }
    if is_multiple(number, step) {
        let count = choose|count: int| #[trigger] (count * step.units()) == number.units();
        assert((sign * count) * divisor == size) by (nonlinear_arith)
            requires
                count * b == a,
                divisor == (if b < 0 {
                    -b
                } else {
                    b
                }),
                size == (if a < 0 {
                    -a
                } else {
                    a
                }),
                sign == (if (a < 0) == (b < 0) {
                    1int
                } else {
                    -1int
                }),
        ;
        vstd::arithmetic::div_mod::lemma_mod_multiples_basic(sign * count, divisor);
    }
}

/// The number can be held against the step without rounding, where there is a step.
pub open spec fn fits_step(number: Decimal, step: Decimal) -> bool {
    step.units() == 0 || number.aligns_with(step)
}

/// The price and the quantity keep the trading rules.
pub open spec fn keeps_rules(rules: InstrumentSpec, price: Decimal, quantity: Decimal) -> bool {
    &&& price.units() >= rules.price_min.units()
    &&& rules.tick_size.units() == 0 || is_multiple(price, rules.tick_size)
    &&& quantity.units() >= rules.quantity_min.units()
    &&& rules.quantity_increment.units() == 0 || is_multiple(quantity, rules.quantity_increment)
    &&& price.units() * quantity.units() >= rules.notional_min.units() * one_unit()
}

/// A price and a quantity break a trading rule just where one of them is too small or no multiple
/// of its step, or their product is too small. Without rules none is broken.
pub proof fn law_rules_are_kept_or_broken(
    rules: InstrumentSpec,
    price: Decimal,
    quantity: Decimal,
)
    requires
        fits_step(price, rules.tick_size),
        fits_step(quantity, rules.quantity_increment),
        multiplies_up(price, quantity),
    ensures
        broken_rule(Some(rules), price, quantity) matches Some(broken) && (broken is None
            <==> keeps_rules(rules, price, quantity)),
        broken_rule(None, price, quantity) == Some(None::<Seq<char>>),
{
    lemma_sign(rules.tick_size);
    lemma_sign(rules.quantity_increment);
    if rules.tick_size.units() != 0 {
        lemma_multiple(price, rules.tick_size);
    }
    if rules.quantity_increment.units() != 0 {
        lemma_multiple(quantity, rules.quantity_increment);
    }
    crate::decimal::lemma_pow10_positive(MAX_SCALE as nat);
    let value = price.times(quantity)->0;
    assert(value.units() < rules.notional_min.units() <==> value.units() * one_unit()
        < rules.notional_min.units() * one_unit()) by (nonlinear_arith)
        requires
            one_unit() > 0,
    ;
}

/// An order that is accepted keeps the trading rules of its instrument.
pub proof fn law_accepted_order_keeps_the_rules(
    exchange: ExchangeView,
    request: OpenRequestView,
    rules: InstrumentSpec,
)
    requires
        exchange.instruments.lookup(request.key.instrument) matches Some(instrument)
            && instrument.spec == Some(rules),
        fits_step(request.state.price, rules.tick_size),
        fits_step(request.state.quantity, rules.quantity_increment),
        multiplies_up(request.state.price, request.state.quantity),
        exchange.open(request) matches Some(outcome) && outcome.response.state is Ok,
    ensures
        keeps_rules(rules, request.state.price, request.state.quantity),
        request.state.price.units() > 0,
        request.state.quantity.units() > 0,
{
    law_rules_are_kept_or_broken(rules, request.state.price, request.state.quantity);
}

/// The arithmetic of a trade needs no rounding: its value, its fees, what it costs or yields, and
/// what that makes of both balances.
pub open spec fn trades_exactly(
    account: AccountView,
    instrument: Instrument<Seq<char>>,
    side: Side,
    quantity: Decimal,
    price: Decimal,
    value: Decimal,
    fees_percent: Decimal,
) -> bool {
    let fees = value.times(fees_percent)->0;
    &&& value.units() * one_unit() == price.units() * quantity.units()
    &&& multiplies_up(value, fees_percent)
    &&& match side {
        Side::Buy => {
            let cost = value.plus(fees)->0;
            &&& adds_up(value, fees)
            &&& cost.valid()
            &&& takes_exactly(account, instrument.underlying.quote, cost.negated())
            &&& takes_exactly(account, instrument.underlying.base, quantity)
        },
        Side::Sell => {
            &&& subtracts_up(value, fees)
            &&& quantity.valid()
            &&& takes_exactly(account, instrument.underlying.base, quantity.negated())
            &&& takes_exactly(account, instrument.underlying.quote, value.minus(fees)->0)
        },
    }
}

/// What a trade of the quantity at the price makes of the totals of both assets: a buy pays the
/// value and the fees in the quote asset and gets the quantity of the base asset; a sell gives the
/// quantity of the base asset and gets the value without the fees in the quote asset. Value and
/// fees are counted in units of two and three times as many decimal places.
pub open spec fn moves_money(
    before: AccountView,
    after: AccountView,
    instrument: Instrument<Seq<char>>,
    side: Side,
    quantity: int,
    price: int,
    fees_percent: int,
) -> bool {
    let base = instrument.underlying.base;
    let quote = instrument.underlying.quote;
    let one = one_unit();
    let quote_change = (total_units(after, quote) - total_units(before, quote)) * one * one;
    let base_change = total_units(after, base) - total_units(before, base);
    match side {
        Side::Buy => base_change == quantity && quote_change == -(price * quantity * (one
            + fees_percent)),
        Side::Sell => base_change == -quantity && quote_change == price * quantity * (one
            - fees_percent),
    }
}

/// Fees of a rate on a value are a part of the value in that proportion.
pub proof fn lemma_value_and_fees(
    price: int,
    quantity: int,
    value: int,
    rate: int,
    fees: int,
    one: int,
)
    requires
        value * one == price * quantity,
        fees * one == value * rate,
    ensures
        (value + fees) * one * one == price * quantity * (one + rate),
        (value - fees) * one * one == price * quantity * (one - rate),
        (-(value + fees)) * one * one == -(price * quantity * (one + rate)),
        fees * one * one == price * quantity * rate,
{
    assert(fees * one * one == price * quantity * rate) by (nonlinear_arith)
        requires
            value * one == price * quantity,
            fees * one == value * rate,
    ;
    assert(value * one * one == price * quantity * one) by (nonlinear_arith)
        requires
            value * one == price * quantity,
    ;
    assert((value + fees) * one * one == value * one * one + fees * one * one) by (nonlinear_arith);
    assert((value - fees) * one * one == value * one * one - fees * one * one) by (nonlinear_arith);
    assert((-(value + fees)) * one * one == -((value + fees) * one * one)) by (nonlinear_arith);
    assert(price * quantity * (one + rate) == price * quantity * one + price * quantity * rate)
        by (nonlinear_arith);
    assert(price * quantity * (one - rate) == price * quantity * one - price * quantity * rate)
        by (nonlinear_arith);
}

/// An order that is executed when it comes moves the money of its trade, and the fees that are told
/// are those of the rate on the value. What stays active of it changes no total.
pub proof fn law_execution_moves_the_money(
    exchange: ExchangeView,
    request: OpenRequestView,
    instrument: Instrument<Seq<char>>,
)
    requires
        exchange.instruments.lookup(request.key.instrument) == Some(instrument),
        instrument.underlying.base != instrument.underlying.quote,
        exchange.open(request) matches Some(outcome) && (outcome.notifications matches Some(sent)
            && (sent.trade matches Some(trade) && trades_exactly(
            exchange.account,
            instrument,
            request.state.side,
            trade.quantity,
            trade.price,
            trade.price.times(trade.quantity)->0,
            exchange.fees_percent,
        ))),
    ensures
        ({
            let outcome = exchange.open(request)->0;
            let trade = (outcome.notifications->0).trade->0;
            &&& moves_money(
                exchange.account,
                outcome.exchange.account,
                instrument,
                request.state.side,
                trade.quantity.units(),
                trade.price.units(),
                exchange.fees_percent.units(),
            )
            &&& trade.fees.fees.units() * one_unit() * one_unit() == trade.price.units()
                * trade.quantity.units() * exchange.fees_percent.units()
        }),
{
    let outcome = exchange.open(request)->0;
    let trade = (outcome.notifications->0).trade->0;
    assert(exchange.execute(request, instrument, trade.quantity, trade.price) == Some(outcome));
    law_execution_updates_both_assets(exchange, request, instrument, trade.quantity, trade.price);
    let value = trade.price.times(trade.quantity)->0;
    let fees = value.times(exchange.fees_percent)->0;
    lemma_value_and_fees(
        trade.price.units(),
        trade.quantity.units(),
        value.units(),
        exchange.fees_percent.units(),
        fees.units(),
        one_unit(),
    );
}

/// What an order of the quantity at the price may cost is worked out without rounding.
pub open spec fn costs_exactly(
    side: Side,
    quantity: Decimal,
    price: Decimal,
    fees_percent: Decimal,
) -> bool {
    side is Buy ==> {
        &&& multiplies_up(quantity, price)
        &&& adds_up(Decimal::of(1, 0), fees_percent)
        &&& multiplies_up(quantity.times(price)->0, Decimal::of(1, 0).plus(fees_percent)->0)
    }
}

/// The reservation is for what an order of the quantity at the price may cost: a buy sets aside its
/// value and the fees in the quote asset, a sell its quantity in the base asset.
pub open spec fn sets_aside(
    reservation: (Seq<char>, Decimal),
    instrument: Instrument<Seq<char>>,
    side: Side,
    quantity: int,
    price: int,
    fees_percent: int,
) -> bool {
    match side {
        Side::Buy => reservation.0 == instrument.underlying.quote && reservation.1.units()
            * one_unit() * one_unit() == quantity * price * (one_unit() + fees_percent),
        Side::Sell => reservation.0 == instrument.underlying.base && reservation.1.units()
            == quantity,
    }
}

/// What an order may cost is its value and the fees, or its quantity.
pub proof fn lemma_reservation(
    instrument: Instrument<Seq<char>>,
    side: Side,
    quantity: Decimal,
    price: Decimal,
    fees_percent: Decimal,
)
    requires
        costs_exactly(side, quantity, price, fees_percent),
        crate::account::reservation_amount(side, quantity, price, fees_percent) is Some,
    ensures
        sets_aside(
            (
                crate::account::paying_asset(side, instrument),
                crate::account::reservation_amount(side, quantity, price, fees_percent)->0,
            ),
            instrument,
            side,
            quantity.units(),
            price.units(),
            fees_percent.units(),
        ),
{
    if side is Buy {
        let value = quantity.times(price)->0;
        let rate = Decimal::of(1, 0).plus(fees_percent)->0;
        let amount = value.times(rate)->0;
        let one = one_unit();
        crate::decimal::lemma_parts_are_kept(1, 0);
        assert(1 * pow10(MAX_SCALE as nat) == one);
        assert(rate.units() == one + fees_percent.units());
        assert(amount.units() * one * one == quantity.units() * price.units() * rate.units())
            by (nonlinear_arith)
            requires
                value.units() * one == quantity.units() * price.units(),
                amount.units() * one == value.units() * rate.units(),
        ;
    }
}

/// An order that is accepted and not executed becomes active as it was asked for, and what it may
/// cost is set aside for it: just so much less is free, and no total changes. The order has a limit
/// and a time in force with which it may stay active.
pub proof fn law_waiting_order_sets_aside_its_cost(
    exchange: ExchangeView,
    request: OpenRequestView,
    instrument: Instrument<Seq<char>>,
)
    requires
        exchange.instruments.lookup(request.key.instrument) == Some(instrument),
        exchange.open(request) matches Some(outcome) && outcome.response.state is Ok
            && outcome.notifications is None,
    ensures
        ({
            let (before, after) = (
                exchange.account,
                exchange.open(request)->0.exchange.account,
            );
            let cid = request.key.cid;
            &&& request.state.kind is Limit
            &&& request.state.time_in_force is GoodUntilCancelled
                || request.state.time_in_force is GoodUntilEndOfDay
            &&& after.orders_open.map.contains_key(cid)
            &&& after.orders_open.map[cid].key == request.key
            &&& after.orders_open.map[cid].side == request.state.side
            &&& after.orders_open.map[cid].price == request.state.price
            &&& after.orders_open.map[cid].quantity == request.state.quantity
            &&& after.orders_open.map[cid].kind == request.state.kind
            &&& after.orders_open.map[cid].time_in_force == request.state.time_in_force
            &&& after.orders_open.map[cid].state == exchange.open(request)->0.response.state->Ok_0
            &&& after.reservations.map.contains_key(cid)
            &&& {
                let reservation = after.reservations.map[cid];
                &&& costs_exactly(
                    request.state.side,
                    request.state.quantity.magnitude(),
                    request.state.price,
                    exchange.fees_percent,
                ) ==> sets_aside(
                    reservation,
                    instrument,
                    request.state.side,
                    request.state.quantity.units(),
                    request.state.price.units(),
                    exchange.fees_percent.units(),
                )
                &&& before.balances.map.contains_key(reservation.0)
                &&& free_units(before, reservation.0) >= reservation.1.units()
                &&& subtracts_up(before.balances.map[reservation.0].balance.free, reservation.1)
                    ==> free_units(after, reservation.0) == free_units(before, reservation.0)
                    - reservation.1.units()
                &&& total_units(after, reservation.0) == total_units(before, reservation.0)
                &&& forall|asset: Seq<char>|
                    asset != reservation.0 ==> #[trigger] after.balances.lookup(asset)
                        == before.balances.lookup(asset)
            }
        }),
{
    lemma_sign(request.state.quantity);
    let quantity = request.state.quantity.magnitude();
    if costs_exactly(
        request.state.side,
        quantity,
        request.state.price,
        exchange.fees_percent,
    ) {
        lemma_reservation(
            instrument,
            request.state.side,
            quantity,
            request.state.price,
            exchange.fees_percent,
        );
    }
}

/// What is left of an order that was executed in part stays active where its time in force lets it,
/// and what it may still cost is set aside; otherwise it has expired. An order of which nothing is
/// left is filled.
pub proof fn law_rest_of_an_execution(
    exchange: ExchangeView,
    request: OpenRequestView,
    instrument: Instrument<Seq<char>>,
)
    requires
        exchange.instruments.lookup(request.key.instrument) == Some(instrument),
        exchange.open(request) matches Some(outcome) && (outcome.notifications matches Some(sent)
            && (sent.trade matches Some(trade) && subtracts_up(
            request.state.quantity.magnitude(),
            trade.quantity,
        ))),
        instrument.underlying.base != instrument.underlying.quote,
    ensures
        ({
            let outcome = exchange.open(request)->0;
            let sent = outcome.notifications->0;
            let trade = sent.trade->0;
            let state = (sent.order->0).state;
            let left = request.state.quantity.units() - trade.quantity.units();
            let (before, after) = (exchange.account, outcome.exchange.account);
            let cid = request.key.cid;
            let stays = left > 0 && (request.state.time_in_force is GoodUntilCancelled
                || request.state.time_in_force is GoodUntilEndOfDay);
            &&& stays ==> {
                &&& state matches OrderState::Active(ActiveOrderState::Open(open))
                    && open.filled_quantity == trade.quantity
                &&& after.orders_open.map.contains_key(cid)
                &&& after.orders_open.map[cid].state.filled_quantity == trade.quantity
                &&& after.orders_open.map[cid].quantity == request.state.quantity
                &&& after.orders_open.map[cid].price == request.state.price
                &&& after.orders_open.map[cid].side == request.state.side
                &&& after.orders_open.map[cid].key == request.key
                &&& after.orders_open.map[cid].kind == request.state.kind
            }
            &&& !stays && left > 0 ==> state == OrderState::<Seq<char>>::Inactive(
                InactiveOrderState::Expired,
            )
            &&& left <= 0 ==> state == OrderState::<Seq<char>>::Inactive(
                InactiveOrderState::FullyFilled,
            )
            &&& !stays ==> after.orders_open == before.orders_open && after.reservations
                == before.reservations
        }),
{
    lemma_sign(request.state.quantity);
}

/// What of an executed order stays active has set aside what it may still cost, where it was set
/// aside at all.
pub proof fn law_rest_sets_aside_its_cost(
    exchange: ExchangeView,
    request: OpenRequestView,
    instrument: Instrument<Seq<char>>,
)
    requires
        keyed(exchange.account),
        exchange.instruments.lookup(request.key.instrument) == Some(instrument),
        exchange.open(request) matches Some(outcome) && (outcome.notifications matches Some(sent)
            && (sent.trade matches Some(trade) && subtracts_up(
            request.state.quantity.magnitude(),
            trade.quantity,
        ) && costs_exactly(
            request.state.side,
            request.state.quantity.magnitude().minus(trade.quantity)->0,
            request.state.price,
            exchange.fees_percent,
        ))),
        !exchange.account.reservations.map.contains_key(request.key.cid),
    ensures
        ({
            let outcome = exchange.open(request)->0;
            let trade = (outcome.notifications->0).trade->0;
            let after = outcome.exchange.account;
            after.reservations.map.contains_key(request.key.cid) ==> sets_aside(
                after.reservations.map[request.key.cid],
                instrument,
                request.state.side,
                request.state.quantity.units() - trade.quantity.units(),
                request.state.price.units(),
                exchange.fees_percent.units(),
            )
        }),
{
    lemma_sign(request.state.quantity);
    let outcome = exchange.open(request)->0;
    let trade = (outcome.notifications->0).trade->0;
    let remaining = request.state.quantity.magnitude().minus(trade.quantity)->0;
    if crate::account::reservation_amount(
        request.state.side,
        remaining,
        request.state.price,
        exchange.fees_percent,
    ) is Some {
        lemma_reservation(
            instrument,
            request.state.side,
            remaining,
            request.state.price,
            exchange.fees_percent,
        );
    }
    assert(exchange.execute(request, instrument, trade.quantity, trade.price) == Some(outcome));
}

/// An order that is executed when it comes is paid for: what it costs was free. The balances that
/// are told are those of the asset that is paid with and of the one that is got, in this order, with
/// the totals that they then have.
pub proof fn law_execution_is_paid_and_told(
    exchange: ExchangeView,
    request: OpenRequestView,
    instrument: Instrument<Seq<char>>,
)
    requires
        keyed(exchange.account),
        exchange.instruments.lookup(request.key.instrument) == Some(instrument),
        instrument.underlying.base != instrument.underlying.quote,
        exchange.open(request) matches Some(outcome) && (outcome.notifications matches Some(sent)
            && (sent.trade matches Some(trade) && trades_exactly(
            exchange.account,
            instrument,
            request.state.side,
            trade.quantity,
            trade.price,
            trade.price.times(trade.quantity)->0,
            exchange.fees_percent,
        ))),
    ensures
        ({
            let outcome = exchange.open(request)->0;
            let trade = (outcome.notifications->0).trade->0;
            let told = (outcome.notifications->0).balances;
            let (before, after) = (exchange.account, outcome.exchange.account);
            let base = instrument.underlying.base;
            let quote = instrument.underlying.quote;
            let (paid, got) = match request.state.side {
                Side::Buy => (quote, base),
                Side::Sell => (base, quote),
            };
            &&& match request.state.side {
                Side::Buy => free_units(before, quote) * one_unit() * one_unit()
                    >= trade.price.units() * trade.quantity.units() * (one_unit()
                    + exchange.fees_percent.units()),
                Side::Sell => free_units(before, base) >= trade.quantity.units(),
            }
            &&& told.len() == 2
            &&& told[0].asset == paid
            &&& told[1].asset == got
            &&& told[0].balance.total.units() == total_units(after, paid)
            &&& told[1].balance.total.units() == total_units(after, got)
            &&& told[1] == after.balances.map[got]
        }),
{
    let outcome = exchange.open(request)->0;
    let trade = (outcome.notifications->0).trade->0;
    assert(exchange.execute(request, instrument, trade.quantity, trade.price) == Some(outcome));
    let value = trade.price.times(trade.quantity)->0;
    let fees = value.times(exchange.fees_percent)->0;
    lemma_value_and_fees(
        trade.price.units(),
        trade.quantity.units(),
        value.units(),
        exchange.fees_percent.units(),
        fees.units(),
        one_unit(),
    );
    let deal = settlement(
        request.state.side,
        instrument,
        trade.quantity,
        value,
        exchange.fees_percent,
    )->0;
    let free = free_units(exchange.account, deal.debit_asset);
    assert(free >= deal.debit_amount.units());
    crate::decimal::lemma_pow10_positive(MAX_SCALE as nat);
    assert(free * one_unit() * one_unit() >= deal.debit_amount.units() * one_unit() * one_unit())
        by (nonlinear_arith)
        requires
            free >= deal.debit_amount.units(),
            one_unit() > 0,
    ;
    let (account, answer) = exchange.account.fill(
        deal.debit_asset,
        deal.debit_amount,
        deal.credit_asset,
        deal.credit_amount,
        exchange.time,
    )->0;
    if let Ok(balances) = answer {
        assert(balances.len() == 2);
        assert(balances[0].asset == deal.debit_asset);
        assert(balances[1].asset == deal.credit_asset);
        assert(balances[1] == account.balances.map[deal.credit_asset]);
        assert(account.balances.map[deal.debit_asset] == balances[0]);
    }
}

/// An execution is a matter of funds: where both assets are known and what is paid is free, it goes
/// through, with what stays active set aside where something does; where too little is free it is
/// refused for the asset that is paid with. An unknown asset is refused for itself.
pub proof fn law_execution_is_a_matter_of_funds(
    exchange: ExchangeView,
    request: OpenRequestView,
    instrument: Instrument<Seq<char>>,
    quantity: Decimal,
    price: Decimal,
)
    requires
        instrument.underlying.base != instrument.underlying.quote,
        exchange.execute(request, instrument, quantity, price) is Some,
        trades_exactly(
            exchange.account,
            instrument,
            request.state.side,
            quantity,
            price,
            price.times(quantity)->0,
            exchange.fees_percent,
        ),
        free_units(exchange.account, instrument.underlying.base) >= 0,
        free_units(exchange.account, instrument.underlying.quote) >= 0,
        quantity.units() >= 0,
        price.units() >= 0,
        0 <= exchange.fees_percent.units() <= one_unit(),
        subtracts_up(request.state.quantity.magnitude(), quantity),
        request.state.quantity.magnitude().units() <= quantity.units()
            || request.state.time_in_force is ImmediateOrCancel
            || request.state.time_in_force is FillOrKill,
    ensures
        ({
            let outcome = exchange.execute(request, instrument, quantity, price)->0;
            let account = exchange.account;
            let base = instrument.underlying.base;
            let quote = instrument.underlying.quote;
            let (paid, got) = match request.state.side {
                Side::Buy => (quote, base),
                Side::Sell => (base, quote),
            };
            let covered = match request.state.side {
                Side::Buy => free_units(account, quote) * one_unit() * one_unit() >= price.units()
                    * quantity.units() * (one_unit() + exchange.fees_percent.units()),
                Side::Sell => free_units(account, base) >= quantity.units(),
            };
            &&& outcome.response.state is Ok <==> account.balances.map.contains_key(paid)
                && account.balances.map.contains_key(got) && covered
            &&& outcome.response.state is Ok <==> outcome.notifications is Some
            &&& account.balances.map.contains_key(paid) && !covered ==> (
            outcome.response.state matches Err(
                OrderError::Rejected(ApiError::BalanceInsufficient(blamed, _)),
            ) && blamed == paid)
            &&& !account.balances.map.contains_key(paid) ==> (outcome.response.state matches Err(
                OrderError::Rejected(ApiError::AssetInvalid(blamed, _)),
            ) && blamed == paid)
        }),
{
    let value = price.times(quantity)->0;
    let fees = value.times(exchange.fees_percent)->0;
    let rate = exchange.fees_percent.units();
    let one = one_unit();
    lemma_value_and_fees(
        price.units(),
        quantity.units(),
        value.units(),
        rate,
        fees.units(),
        one,
    );
    crate::decimal::lemma_pow10_positive(MAX_SCALE as nat);
    let deal = settlement(
        request.state.side,
        instrument,
        quantity,
        value,
        exchange.fees_percent,
    )->0;
    lemma_sign(deal.debit_amount);
    let free = free_units(exchange.account, deal.debit_asset);
    let debit = deal.debit_amount.units();
    assert(free * one * one >= debit * one * one <==> free >= debit) by (nonlinear_arith)
        requires
            one > 0,
    ;
    assert(value.units() >= 0) by (nonlinear_arith)
        requires
            value.units() * one == price.units() * quantity.units(),
            price.units() >= 0,
            quantity.units() >= 0,
            one > 0,
    ;
    assert(fees.units() >= 0 && fees.units() <= value.units()) by (nonlinear_arith)
        requires
            fees.units() * one == value.units() * rate,
            0 <= rate <= one,
            value.units() >= 0,
            one > 0,
    ;
    if exchange.account.balances.has(deal.debit_asset) && exchange.account.balances.has(
        deal.credit_asset,
    ) && free >= debit {
        let (account, answer) = exchange.account.fill(
            deal.debit_asset,
            deal.debit_amount,
            deal.credit_asset,
            deal.credit_amount,
            exchange.time,
        )->0;
        lemma_fill_goes_through(
            exchange.account,
            deal.debit_asset,
            deal.debit_amount,
            deal.credit_asset,
            deal.credit_amount,
            exchange.time,
        );
        assert(account.balances.has(deal.debit_asset));
    }
}

/// A fill of amounts that are free goes through, where it makes the balance that it adds to no
/// debt.
proof fn lemma_fill_goes_through(
    account: AccountView,
    debit_asset: Seq<char>,
    debit_amount: Decimal,
    credit_asset: Seq<char>,
    credit_amount: Decimal,
    time: Timestamp,
)
    requires
        debit_asset != credit_asset,
        account.balances.map.contains_key(debit_asset),
        account.balances.map.contains_key(credit_asset),
        0 <= debit_amount.units() <= free_units(account, debit_asset),
        credit_amount.units() >= 0,
        free_units(account, credit_asset) >= 0,
        debit_amount.valid(),
        takes_exactly(account, debit_asset, debit_amount.negated()),
        takes_exactly(account, credit_asset, credit_amount),
        account.fill(debit_asset, debit_amount, credit_asset, credit_amount, time) is Some,
    ensures
        (account.fill(debit_asset, debit_amount, credit_asset, credit_amount, time)->0).1 is Ok,
{
    lemma_sign(debit_amount);
}

/// What of an executed order stays active has something set aside for it.
pub proof fn law_rest_has_something_set_aside(
    exchange: ExchangeView,
    request: OpenRequestView,
    instrument: Instrument<Seq<char>>,
)
    requires
        exchange.instruments.lookup(request.key.instrument) == Some(instrument),
        instrument.underlying.base != instrument.underlying.quote,
        request.state.time_in_force is GoodUntilCancelled
            || request.state.time_in_force is GoodUntilEndOfDay,
        exchange.open(request) matches Some(outcome) && (outcome.notifications matches Some(sent)
            && (sent.trade matches Some(trade) && trades_exactly(
            exchange.account,
            instrument,
            request.state.side,
            trade.quantity,
            trade.price,
            trade.price.times(trade.quantity)->0,
            exchange.fees_percent,
        ) && subtracts_up(request.state.quantity.magnitude(), trade.quantity)
            && request.state.quantity.units() > trade.quantity.units() && adds_up(
            settlement(
                request.state.side,
                instrument,
                trade.quantity,
                trade.price.times(trade.quantity)->0,
                exchange.fees_percent,
            )->0.debit_amount,
            crate::account::reservation_amount(
                request.state.side,
                request.state.quantity.magnitude().minus(trade.quantity)->0,
                request.state.price,
                exchange.fees_percent,
            )->0,
        ))),
    ensures
        exchange.open(request)->0.exchange.account.reservations.map.contains_key(request.key.cid),
        exchange.open(request)->0.exchange.account.orders_open.map.contains_key(request.key.cid),
{
    lemma_sign(request.state.quantity);
    let outcome = exchange.open(request)->0;
    let trade = (outcome.notifications->0).trade->0;
    assert(exchange.execute(request, instrument, trade.quantity, trade.price) == Some(outcome));
    let value = trade.price.times(trade.quantity)->0;
    let deal = settlement(
        request.state.side,
        instrument,
        trade.quantity,
        value,
        exchange.fees_percent,
    )->0;
    crate::laws::law_fill_moves_both_balances(
        exchange.account,
        deal.debit_asset,
        deal.debit_amount,
        deal.credit_asset,
        deal.credit_amount,
        exchange.time,
    );
}

/// A limit order that keeps the rules, meets no price within its limit and may stay active is
/// accepted where what it may cost is free, and becomes active.
pub proof fn law_order_out_of_reach_is_accepted(
    exchange: ExchangeView,
    request: OpenRequestView,
    instrument: Instrument<Seq<char>>,
)
    requires
        keyed(exchange.account),
        exchange.instruments.lookup(request.key.instrument) == Some(instrument),
        !exchange.account.orders_open.map.contains_key(request.key.cid),
        request.state.kind is Limit,
        request.state.time_in_force is GoodUntilCancelled
            || request.state.time_in_force is GoodUntilEndOfDay,
        request.state.price.units() > 0,
        request.state.quantity.units() > 0,
        instrument.spec matches Some(rules) ==> fits_step(request.state.price, rules.tick_size)
            && fits_step(request.state.quantity, rules.quantity_increment) && multiplies_up(
            request.state.price,
            request.state.quantity,
        ) && keeps_rules(rules, request.state.price, request.state.quantity),
        forall|i: int|
            0 <= i < crate::terms::levels_met(exchange, request).len()
                ==> match request.state.side {
                Side::Buy => (#[trigger] crate::terms::levels_met(
                    exchange,
                    request,
                )[i]).price.units() > request.state.price.units(),
                Side::Sell => crate::terms::levels_met(exchange, request)[i].price.units()
                    < request.state.price.units(),
            },
        costs_exactly(
            request.state.side,
            request.state.quantity.magnitude(),
            request.state.price,
            exchange.fees_percent,
        ),
        match request.state.side {
            Side::Buy => exchange.account.balances.map.contains_key(instrument.underlying.quote)
                && free_units(exchange.account, instrument.underlying.quote) * one_unit()
                * one_unit() >= request.state.quantity.units() * request.state.price.units() * (
            one_unit() + exchange.fees_percent.units()),
            Side::Sell => exchange.account.balances.map.contains_key(instrument.underlying.base)
                && free_units(exchange.account, instrument.underlying.base)
                >= request.state.quantity.units(),
        },
        exchange.open(request) is Some,
    ensures
        exchange.open(request)->0.response.state is Ok,
        exchange.open(request)->0.notifications is None,
        exchange.open(request)->0.exchange.account.orders_open.map.contains_key(request.key.cid),
{
    lemma_sign(request.state.quantity);
    let orders = exchange.account.orders_open;
    let cid = request.key.cid;
    if exchange.is_active(cid) {
        let i = choose|i: int|
            0 <= i < orders.values().len() && (#[trigger] orders.values()[i]).key.cid == cid;
        assert(orders.keys.contains(orders.keys[i]));
        assert(orders.map.contains_key(orders.keys[i]));
    }
    match instrument.spec {
        Some(rules) => {
            law_rules_are_kept_or_broken(rules, request.state.price, request.state.quantity);
        },
        None => {},
    }
    let levels = crate::terms::levels_met(exchange, request);
    let quantity = request.state.quantity.magnitude();
    assert forall|i: int| 0 <= i < levels.len() implies !crate::terms::no_worse(
        request.state.side,
        (#[trigger] levels[i]).price,
        request.state.price,
    ) by {}
    crate::terms::law_nothing_within_limit_fills_nothing(
        request.state.side,
        levels,
        quantity,
        request.state.price,
        crate::market::NoQueue,
    );
    if crate::account::reservation_amount(
        request.state.side,
        quantity,
        request.state.price,
        exchange.fees_percent,
    ) is Some {
        lemma_reservation(
            instrument,
            request.state.side,
            quantity,
            request.state.price,
            exchange.fees_percent,
        );
        let amount = crate::account::reservation_amount(
            request.state.side,
            quantity,
            request.state.price,
            exchange.fees_percent,
        )->0.units();
        let free = free_units(exchange.account, instrument.underlying.quote);
        crate::decimal::lemma_pow10_positive(MAX_SCALE as nat);
        assert(free * one_unit() * one_unit() >= amount * one_unit() * one_unit() ==> free
            >= amount) by (nonlinear_arith)
            requires
                one_unit() > 0,
        ;
    }
}

/// A refusal for a trading rule names the first of them that is broken: the smallest price, the
/// step of the price, the smallest quantity, the step of the quantity, the smallest value.
pub proof fn law_broken_rule_is_named(rules: InstrumentSpec, price: Decimal, quantity: Decimal)
    requires
        fits_step(price, rules.tick_size),
        fits_step(quantity, rules.quantity_increment),
        multiplies_up(price, quantity),
        !keeps_rules(rules, price, quantity),
    ensures
        broken_rule(Some(rules), price, quantity) == Some(
            Some(
                if price.units() < rules.price_min.units() {
                    "price is below the minimum price"@
                } else if rules.tick_size.units() != 0 && !is_multiple(price, rules.tick_size) {
                    "price is not a multiple of the tick size"@
                } else if quantity.units() < rules.quantity_min.units() {
                    "quantity is below the minimum quantity"@
                } else if rules.quantity_increment.units() != 0 && !is_multiple(
                    quantity,
                    rules.quantity_increment,
                ) {
                    "quantity is not a multiple of the quantity increment"@
                } else {
                    "order value is below the minimum notional"@
                },
            ),
        ),
{
    law_rules_are_kept_or_broken(rules, price, quantity);
    lemma_sign(rules.tick_size);
    lemma_sign(rules.quantity_increment);
    if rules.tick_size.units() != 0 {
        lemma_multiple(price, rules.tick_size);
    }
    if rules.quantity_increment.units() != 0 {
        lemma_multiple(quantity, rules.quantity_increment);
    }
}

/// An order that breaks a trading rule of its instrument is refused for it, and nothing changes.
pub proof fn law_order_that_breaks_a_rule_is_refused(
    exchange: ExchangeView,
    request: OpenRequestView,
    rules: InstrumentSpec,
)
    requires
        exchange.instruments.lookup(request.key.instrument) matches Some(instrument)
            && instrument.spec == Some(rules),
        fits_step(request.state.price, rules.tick_size),
        fits_step(request.state.quantity, rules.quantity_increment),
        multiplies_up(request.state.price, request.state.quantity),
        !keeps_rules(rules, request.state.price, request.state.quantity),
    ensures
        exchange.open(request) matches Some(outcome) && outcome.exchange == exchange
            && outcome.notifications is None && (outcome.response.state matches Err(
            OrderError::Rejected(ApiError::OrderRejected(_)),
        )),
{
    law_rules_are_kept_or_broken(rules, request.state.price, request.state.quantity);
}

/// An order is refused for what is wrong with it: its numbers, its instrument, or, where it may
/// only wait, a price within its limit.
pub proof fn law_refusal_says_why(exchange: ExchangeView, request: OpenRequestView)
    requires
        !exchange.is_active(request.key.cid),
    ensures
        request.state.price.units() <= 0 || request.state.quantity.units() <= 0 ==> (exchange.open(
            request,
        ) matches Some(outcome) && outcome.response.state == Err::<
            crate::order::Open<Seq<char>>,
            OrderError<Seq<char>>,
        >(
            OrderError::Rejected(
                ApiError::OrderRejected("price and quantity must be positive"@),
            ),
        )),
        request.state.price.units() > 0 && request.state.quantity.units() > 0
            && !exchange.instruments.map.contains_key(request.key.instrument) ==> (exchange.open(
            request,
        ) matches Some(outcome) && outcome.response.state == Err::<
            crate::order::Open<Seq<char>>,
            OrderError<Seq<char>>,
        >(
            OrderError::Rejected(
                ApiError::InstrumentInvalid(
                    request.key.instrument,
                    "MockExchange is not set-up for managing: "@ + request.key.instrument,
                ),
            ),
        )),
{
}

/// An order that may only wait and meets a price within its limit is refused for it, where nothing
/// else is wrong with it.
pub proof fn law_post_only_order_that_crosses_is_refused(
    exchange: ExchangeView,
    request: OpenRequestView,
)
    requires
        request.state.kind is Limit,
        request.state.time_in_force == (crate::order::TimeInForce::GoodUntilCancelled {
            post_only: true,
        }),
        crate::terms::sorted_for(
            request.state.side,
            crate::terms::levels_met(exchange, request),
        ),
        crate::terms::walks_plainly(
            request.state.side,
            crate::terms::levels_met(exchange, request),
            request.state.quantity.magnitude(),
            Some(request.state.price),
            crate::market::NoQueue,
        ),
        crate::terms::available(
            request.state.side,
            crate::terms::levels_met(exchange, request),
            request.state.price,
        ) > 0,
        request.state.quantity.units() > 0,
    ensures
        exchange.open(request) matches Some(outcome) ==> outcome.response.state is Err
            && outcome.exchange == exchange,
{
    lemma_nought();
    lemma_sign(request.state.quantity);
    crate::terms::law_touch_fills_what_is_available(
        request.state.side,
        crate::terms::levels_met(exchange, request),
        request.state.quantity.magnitude(),
        request.state.price,
    );
}

} // verus!
