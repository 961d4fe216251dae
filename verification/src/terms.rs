//! The terms on which orders are executed: at which prices, how much, and what they cost.

use crate::account::remaining_quantity;
use crate::conduct::ActiveOrder;
use crate::decimal::{lemma_nought, lemma_sign, pow10, Decimal, MAX_SCALE};
use crate::exchange::{ExchangeView, OpenRequestView};
use crate::instrument::Side;
use crate::market::{
    hands_out_what_is_wanted, is_best_first, law_models_hand_out_what_is_wanted,
    law_walk_fills_what_stands_within_limit, law_walk_keeps_to_quantity_and_limit, standing,
    take_level, walk_levels, walk_start, walks_exactly, BookView, MockMarketLevel, NoQueue,
    QueueModel, Walk,
};

use vstd::prelude::*;

verus! {

/// The levels of the book that an order on the side is executed against: a purchase takes what is
/// asked for, a sale what is bid.
pub open spec fn other_side(book: BookView, side: Side) -> Seq<MockMarketLevel> {
    match side {
        Side::Buy => book.asks,
        Side::Sell => book.bids,
    }
}

/// The price is no worse than the limit: no higher for a purchase, no lower for a sale.
pub open spec fn no_worse(side: Side, price: Decimal, limit: Decimal) -> bool {
    match side {
        Side::Buy => price.units() <= limit.units(),
        Side::Sell => price.units() >= limit.units(),
    }
}

/// The best price comes first: the lowest of those that are asked for, the highest of those that
/// are bid.
pub open spec fn sorted_for(side: Side, levels: Seq<MockMarketLevel>) -> bool {
    forall|i: int, j: int|
        0 <= i < j < levels.len() ==> match side {
            Side::Buy => (#[trigger] levels[i]).price.units() <= (
            #[trigger] levels[j]).price.units(),
            Side::Sell => levels[i].price.units() >= levels[j].price.units(),
        }
}

/// No level holds less than nothing.
pub open spec fn stocked(levels: Seq<MockMarketLevel>) -> bool {
    forall|i: int| 0 <= i < levels.len() ==> (#[trigger] levels[i]).quantity.units() >= 0
}

/// How much stands at the levels whose price is no worse than the limit.
pub open spec fn available(side: Side, levels: Seq<MockMarketLevel>, limit: Decimal) -> int
    decreases levels.len(),
{
    if levels.len() == 0 {
        0
    } else {
        available(side, levels.skip(1), limit) + (if no_worse(side, levels[0].price, limit) {
            levels[0].quantity.units()
        } else {
            0
        })
    }
}

/// The average price of the walk over the levels is worked out without rounding.
pub open spec fn averages_exactly<Q: QueueModel>(
    side: Side,
    levels: Seq<MockMarketLevel>,
    quantity: Decimal,
    limit: Option<Decimal>,
    queue: Q,
) -> bool {
    walk_levels(side, levels, limit, queue, walk_start(quantity)) matches Some(done) && (
    done.filled.units() != 0 ==> (done.notional.over(done.filled) matches Some(price)
        && price.units() * done.filled.units() == done.notional.units() * pow10(
        MAX_SCALE as nat,
    )))
}

/// The walk over the levels needs no rounding, nor does its average price.
pub open spec fn walks_plainly<Q: QueueModel>(
    side: Side,
    levels: Seq<MockMarketLevel>,
    quantity: Decimal,
    limit: Option<Decimal>,
    queue: Q,
) -> bool {
    &&& stocked(levels)
    &&& walks_exactly(side, levels, limit, queue, walk_start(quantity))
    &&& averages_exactly(side, levels, quantity, limit, queue)
}

/// What stands within a limit does not depend on how it is written.
proof fn lemma_available(side: Side, levels: Seq<MockMarketLevel>, limit: Decimal)
    ensures
        available(side, levels, limit) == standing(side, levels, Some(limit)),
    decreases levels.len(),
{
    if levels.len() > 0 {
        lemma_available(side, levels.skip(1), limit);
    }
}

/// What was paid for a walk lies between so much at the lowest and so much at the highest price.
pub open spec fn paid_between(walk: Walk, low: int, high: int) -> bool {
    walk.filled.units() * low <= walk.notional.units() * pow10(MAX_SCALE as nat)
        <= walk.filled.units() * high
}

/// A walk over levels between two prices pays between these.
proof fn lemma_walk_between<Q: QueueModel>(
    side: Side,
    levels: Seq<MockMarketLevel>,
    limit: Option<Decimal>,
    queue: Q,
    walk: Walk,
    low: int,
    high: int,
)
    requires
        hands_out_what_is_wanted(queue),
        stocked(levels),
        walks_exactly(side, levels, limit, queue, walk),
        walk.wanted.units() >= 0,
        paid_between(walk, low, high),
        forall|i: int|
            0 <= i < levels.len() ==> low <= (#[trigger] levels[i]).price.units() <= high,
    ensures
        walk_levels(side, levels, limit, queue, walk) matches Some(done) && paid_between(
            done,
            low,
            high,
        ) && done.filled.units() >= walk.filled.units() && done.wanted.units() >= 0
            && done.filled.units() + done.wanted.units() == walk.filled.units()
            + walk.wanted.units(),
    decreases levels.len(),
{
    if levels.len() > 0 && crate::market::within_limit(side, levels[0].price, limit) {
        let level = levels[0];
        let amount = queue.touched(level.quantity, walk.wanted);
        let value = amount.times(level.price)->0;
        let next = take_level(walk, level, amount)->0;
        let scale = pow10(MAX_SCALE as nat);
        let (a, p) = (amount.units(), level.price.units());
        let (n, f, v) = (walk.notional.units(), walk.filled.units(), value.units());
        assert(level.quantity.units() >= 0);
        assert(low <= p <= high);
        assert((n + v) * scale == n * scale + a * p) by (nonlinear_arith)
            requires
                v * scale == a * p,
        ;
        assert((f + a) * low == f * low + a * low) by (nonlinear_arith);
        assert((f + a) * high == f * high + a * high) by (nonlinear_arith);
        assert(a * low <= a * p <= a * high) by (nonlinear_arith)
            requires
                0 <= a,
                low <= p <= high,
        ;
        if next.wanted.units() != 0 {
            let rest = levels.skip(1);
            assert forall|i: int| 0 <= i < rest.len() implies (#[trigger] rest[i]).quantity.units()
                >= 0 by {
                assert(rest[i] == levels[i + 1]);
            }
            assert forall|i: int| 0 <= i < rest.len() implies low <= (
            #[trigger] rest[i]).price.units() <= high by {
                assert(rest[i] == levels[i + 1]);
            }
            lemma_walk_between(side, rest, limit, queue, next, low, high);
        }
    }
}

/// An average that is not rounded lies where its sums lie.
proof fn lemma_average(price: int, filled: int, paid: int, bound: int)
    requires
        price * filled == paid,
        filled > 0,
    ensures
        paid <= filled * bound ==> price <= bound,
        paid >= filled * bound ==> price >= bound,
{
    if paid <= filled * bound {
        assert(price <= bound) by (nonlinear_arith)
            requires
                price * filled <= filled * bound,
                filled > 0,
        ;
    }
    if paid >= filled * bound {
        assert(price >= bound) by (nonlinear_arith)
            requires
                price * filled >= filled * bound,
                filled > 0,
        ;
    }
}

/// What is filled from levels: no more than is wanted, at an average price no worse than the
/// limit, and between the lowest and the highest price that stands there.
pub proof fn law_fill_keeps_to_terms<Q: QueueModel>(
    side: Side,
    levels: Seq<MockMarketLevel>,
    quantity: Decimal,
    limit: Option<Decimal>,
    queue: Q,
    low: int,
    high: int,
)
    requires
        hands_out_what_is_wanted(queue),
        walks_plainly(side, levels, quantity, limit, queue),
        quantity.units() >= 0,
        forall|i: int|
            0 <= i < levels.len() ==> low <= (#[trigger] levels[i]).price.units() <= high,
    ensures
        crate::market::fill_from(side, levels, quantity, limit, queue) matches Some(fill) && (
        fill matches Some((filled, price)) ==> {
            &&& 0 < filled.units() <= quantity.units()
            &&& low <= price.units() <= high
            &&& limit matches Some(limit) ==> no_worse(side, price, limit)
        }),
{
    let start = walk_start(quantity);
    let scale = pow10(MAX_SCALE as nat);
    lemma_nought();
    assert(0 * low == 0 && 0 * high == 0 && 0 * scale == 0);
    lemma_walk_between(side, levels, limit, queue, start, low, high);
    let done = walk_levels(side, levels, limit, queue, start)->0;
    if done.filled.units() != 0 {
        let price = done.notional.over(done.filled)->0;
        let paid = done.notional.units() * scale;
        lemma_average(price.units(), done.filled.units(), paid, low);
        lemma_average(price.units(), done.filled.units(), paid, high);
        if let Some(limit) = limit {
            assert(0 * limit.units() == 0);
            law_walk_keeps_to_quantity_and_limit(side, levels, limit, queue, start);
            lemma_average(price.units(), done.filled.units(), paid, limit.units());
        }
    }
}

/// Where no price on the other side of the book is within the limit, nothing is filled.
pub proof fn law_nothing_within_limit_fills_nothing<Q: QueueModel>(
    side: Side,
    levels: Seq<MockMarketLevel>,
    quantity: Decimal,
    limit: Decimal,
    queue: Q,
)
    requires
        forall|i: int|
            0 <= i < levels.len() ==> !no_worse(side, (#[trigger] levels[i]).price, limit),
    ensures
        crate::market::fill_from(side, levels, quantity, Some(limit), queue) == Some(
            None::<(Decimal, Decimal)>,
        ),
{
    lemma_nought();
    if levels.len() > 0 {
        assert(!no_worse(side, levels[0].price, limit));
    }
}

/// A taker who is filled on touch gets from a sorted book the smaller of what is wanted and what
/// stands within the limit.
pub proof fn law_touch_fills_what_is_available(
    side: Side,
    levels: Seq<MockMarketLevel>,
    quantity: Decimal,
    limit: Decimal,
)
    requires
        sorted_for(side, levels),
        walks_plainly(side, levels, quantity, Some(limit), NoQueue),
        quantity.units() >= 0,
    ensures
        ({
            let there = available(side, levels, limit);
            let got = if quantity.units() <= there {
                quantity.units()
            } else {
                there
            };
            crate::market::fill_from(side, levels, quantity, Some(limit), NoQueue) matches Some(
                fill,
            ) && match fill {
                Some((filled, _)) => got > 0 && filled.units() == got,
                None => got == 0,
            }
        }),
{
    lemma_nought();
    lemma_available(side, levels, limit);
    assert(is_best_first(side, levels)) by {
        assert forall|i: int, j: int| 0 <= i < j < levels.len() implies !crate::market::better(
            side,
            #[trigger] levels[j].price,
            #[trigger] levels[i].price,
        ) by {}
    }
    let start = walk_start(quantity);
    law_walk_fills_what_stands_within_limit(side, levels, Some(limit), start);
    law_models_hand_out_what_is_wanted();
    assert(0 * limit.units() == 0 && 0 * pow10(MAX_SCALE as nat) == 0);
    law_walk_keeps_to_quantity_and_limit(side, levels, limit, NoQueue, start);
}

/// The levels that an order of the request meets, where the exchange knows a book.
pub open spec fn levels_met(exchange: ExchangeView, request: OpenRequestView) -> Seq<
    MockMarketLevel,
> {
    match exchange.books.lookup(request.key.instrument) {
        Some(book) => other_side(book, request.state.side),
        None => Seq::empty(),
    }
}

/// A limit order is never executed at a price worse than its limit, nor beyond the prices on the
/// other side of the book, nor for more than it asks for.
pub proof fn law_limit_order_keeps_to_its_limit(
    exchange: ExchangeView,
    request: OpenRequestView,
    low: int,
    high: int,
)
    requires
        request.state.kind is Limit,
        exchange.open(request) matches Some(outcome) && outcome.notifications is Some,
        walks_plainly(
            request.state.side,
            levels_met(exchange, request),
            request.state.quantity.magnitude(),
            Some(request.state.price),
            NoQueue,
        ),
        forall|i: int|
            0 <= i < levels_met(exchange, request).len() ==> low <= (#[trigger] levels_met(
                exchange,
                request,
            )[i]).price.units() <= high,
    ensures
        ({
            let sent = exchange.open(request)->0.notifications->0;
            sent.trade matches Some(trade) && {
                &&& match request.state.side {
                    Side::Buy => trade.price.units() <= request.state.price.units(),
                    Side::Sell => trade.price.units() >= request.state.price.units(),
                }
                &&& low <= trade.price.units() <= high
                &&& 0 < trade.quantity.units() <= request.state.quantity.units()
            }
        }),
{
    law_models_hand_out_what_is_wanted();
    lemma_sign(request.state.quantity);
    law_fill_keeps_to_terms(
        request.state.side,
        levels_met(exchange, request),
        request.state.quantity.magnitude(),
        Some(request.state.price),
        NoQueue,
        low,
        high,
    );
}

/// A limit order whose limit no price on the other side of the book meets is not executed: nothing
/// is traded, and no total changes.
pub proof fn law_limit_order_out_of_reach_is_not_executed(
    exchange: ExchangeView,
    request: OpenRequestView,
)
    requires
        request.state.kind is Limit,
        forall|i: int|
            0 <= i < levels_met(exchange, request).len() ==> match request.state.side {
                Side::Buy => (#[trigger] levels_met(exchange, request)[i]).price.units()
                    > request.state.price.units(),
                Side::Sell => levels_met(exchange, request)[i].price.units()
                    < request.state.price.units(),
            },
    ensures
        exchange.open(request) matches Some(outcome) ==> {
            &&& outcome.notifications is None
            &&& outcome.exchange.account.trades == exchange.account.trades
            &&& forall|asset: Seq<char>| #[trigger]
                exchange.account.balances.map.contains_key(asset)
                    ==> outcome.exchange.account.balances.map[asset].balance.total
                    == exchange.account.balances.map[asset].balance.total
        },
{
    let levels = levels_met(exchange, request);
    assert forall|i: int| 0 <= i < levels.len() implies !no_worse(
        request.state.side,
        (#[trigger] levels[i]).price,
        request.state.price,
    ) by {}
    law_nothing_within_limit_fills_nothing(
        request.state.side,
        levels,
        request.state.quantity.magnitude(),
        request.state.price,
        NoQueue,
    );
}

/// A limit order that meets prices within its limit is executed at once, where it is accepted: for
/// as much as stands there, and no more than it asks for. What only meets worse prices becomes
/// active, or is refused.
pub proof fn law_limit_order_takes_what_is_available(
    exchange: ExchangeView,
    request: OpenRequestView,
)
    requires
        request.state.kind is Limit,
        sorted_for(request.state.side, levels_met(exchange, request)),
        walks_plainly(
            request.state.side,
            levels_met(exchange, request),
            request.state.quantity.magnitude(),
            Some(request.state.price),
            NoQueue,
        ),
        exchange.open(request) matches Some(outcome) && outcome.response.state is Ok,
    ensures
        ({
            let outcome = exchange.open(request)->0;
            let there = available(
                request.state.side,
                levels_met(exchange, request),
                request.state.price,
            );
            if there > 0 {
                outcome.notifications matches Some(sent) && (sent.trade matches Some(trade)
                    && trade.quantity.units() == (if request.state.quantity.units() <= there {
                    request.state.quantity.units()
                } else {
                    there
                }))
            } else {
                outcome.notifications is None
            }
        }),
{
    lemma_nought();
    lemma_sign(request.state.quantity);
    lemma_available(
        request.state.side,
        levels_met(exchange, request),
        request.state.price,
    );
    law_touch_fills_what_is_available(
        request.state.side,
        levels_met(exchange, request),
        request.state.quantity.magnitude(),
        request.state.price,
    );
}

/// A market order is executed at prices on the other side of the book, for no more than it asks
/// for, whatever price it names.
pub proof fn law_market_order_takes_the_other_side(
    exchange: ExchangeView,
    request: OpenRequestView,
    low: int,
    high: int,
)
    requires
        request.state.kind is Market,
        exchange.open(request) matches Some(outcome) && outcome.notifications is Some,
        walks_plainly(
            request.state.side,
            levels_met(exchange, request),
            request.state.quantity.magnitude(),
            None,
            NoQueue,
        ),
        levels_met(exchange, request).len() > 0,
        levels_met(exchange, request)[0].quantity.units() > 0,
        forall|i: int|
            0 <= i < levels_met(exchange, request).len() ==> low <= (#[trigger] levels_met(
                exchange,
                request,
            )[i]).price.units() <= high,
    ensures
        ({
            let sent = exchange.open(request)->0.notifications->0;
            sent.trade matches Some(trade) && low <= trade.price.units() <= high && 0
                < trade.quantity.units() <= request.state.quantity.units()
        }),
{
    let levels = levels_met(exchange, request);
    let quantity = request.state.quantity.magnitude();
    let side = request.state.side;
    law_models_hand_out_what_is_wanted();
    lemma_nought();
    lemma_sign(request.state.quantity);
    law_fill_keeps_to_terms(side, levels, quantity, None, NoQueue, low, high);
    let start = walk_start(quantity);
    let amount = NoQueue.touched(levels[0].quantity, quantity);
    let next = take_level(start, levels[0], amount)->0;
    assert(next.filled.units() > 0);
    if next.wanted.units() != 0 {
        let rest = levels.skip(1);
        assert forall|i: int| 0 <= i < rest.len() implies (#[trigger] rest[i]).quantity.units()
            >= 0 by {
            assert(rest[i] == levels[i + 1]);
        }
        lemma_filled_grows(side, rest, None, NoQueue, next);
    }
}

/// What a walk has filled stays filled.
proof fn lemma_filled_grows<Q: QueueModel>(
    side: Side,
    levels: Seq<MockMarketLevel>,
    limit: Option<Decimal>,
    queue: Q,
    walk: Walk,
)
    requires
        hands_out_what_is_wanted(queue),
        stocked(levels),
        walks_exactly(side, levels, limit, queue, walk),
        walk.wanted.units() >= 0,
    ensures
        walk_levels(side, levels, limit, queue, walk) matches Some(done) && done.filled.units()
            >= walk.filled.units(),
    decreases levels.len(),
{
    if levels.len() > 0 && crate::market::within_limit(side, levels[0].price, limit) {
        let amount = queue.touched(levels[0].quantity, walk.wanted);
        let next = take_level(walk, levels[0], amount)->0;
        assert(levels[0].quantity.units() >= 0);
        if next.wanted.units() != 0 {
            let rest = levels.skip(1);
            assert forall|i: int| 0 <= i < rest.len() implies (#[trigger] rest[i]).quantity.units()
                >= 0 by {
                assert(rest[i] == levels[i + 1]);
            }
            lemma_filled_grows(side, rest, limit, queue, next);
        }
    }
}

/// A market order that meets no book is executed in full at the price of the last public trade of
/// its instrument, and refused where there was none.
pub proof fn law_market_order_without_book_takes_last_trade(
    exchange: ExchangeView,
    request: OpenRequestView,
)
    requires
        request.state.kind is Market,
        levels_met(exchange, request).len() == 0,
    ensures
        exchange.open(request) matches Some(outcome) ==> {
            &&& !exchange.last_trades.map.contains_key(request.key.instrument)
                ==> outcome.response.state is Err && outcome.notifications is None
            &&& outcome.notifications matches Some(sent) ==> (sent.trade matches Some(trade)
                && exchange.last_trades.map.contains_key(request.key.instrument) && trade.price
                == exchange.last_trades.map[request.key.instrument] && trade.quantity.units()
                == request.state.quantity.units())
        },
{
    lemma_nought();
    lemma_sign(request.state.quantity);
}

/// An active order is never filled from a book at a price worse than its own, nor beyond the
/// prices on the other side of the book, nor for more than is left of it.
pub proof fn law_active_order_keeps_to_its_limit<Q: QueueModel>(
    exchange: ExchangeView,
    order: ActiveOrder,
    book: BookView,
    queue: Q,
    low: int,
    high: int,
)
    requires
        hands_out_what_is_wanted(queue),
        exchange.touch(order, book, queue) matches Some(filled) && filled.notifications is Some,
        walks_plainly(
            order.side,
            other_side(book, order.side),
            remaining_quantity(order)->0,
            Some(order.price),
            queue,
        ),
        forall|i: int|
            0 <= i < other_side(book, order.side).len() ==> low <= (#[trigger] other_side(
                book,
                order.side,
            )[i]).price.units() <= high,
    ensures
        ({
            let sent = exchange.touch(order, book, queue)->0.notifications->0;
            sent.trade matches Some(trade) && {
                &&& match order.side {
                    Side::Buy => trade.price.units() <= order.price.units(),
                    Side::Sell => trade.price.units() >= order.price.units(),
                }
                &&& low <= trade.price.units() <= high
                &&& 0 < trade.quantity.units() <= remaining_quantity(order)->0.units()
                &&& trade.side == order.side
            }
        }),
{
    law_fill_keeps_to_terms(
        order.side,
        other_side(book, order.side),
        remaining_quantity(order)->0,
        Some(order.price),
        queue,
        low,
        high,
    );
    let (quantity, price) = (crate::market::fill_from(
        order.side,
        book.facing(order.side),
        remaining_quantity(order)->0,
        Some(order.price),
        queue,
    )->0)->0;
    crate::conduct::law_fill_concerns_one_order(exchange, order, quantity, price);
}

/// An active order whose price no price on the other side of the book meets stays as it is.
pub proof fn law_active_order_out_of_reach_is_not_filled<Q: QueueModel>(
    exchange: ExchangeView,
    order: ActiveOrder,
    book: BookView,
    queue: Q,
)
    requires
        forall|i: int|
            0 <= i < other_side(book, order.side).len() ==> match order.side {
                Side::Buy => (#[trigger] other_side(book, order.side)[i]).price.units()
                    > order.price.units(),
                Side::Sell => other_side(book, order.side)[i].price.units() < order.price.units(),
            },
    ensures
        exchange.touch(order, book, queue) matches Some(filled) ==> filled.exchange == exchange
            && filled.notifications is None,
{
    let levels = other_side(book, order.side);
    assert forall|i: int| 0 <= i < levels.len() implies !no_worse(
        order.side,
        (#[trigger] levels[i]).price,
        order.price,
    ) by {}
    if let Some(remaining) = remaining_quantity(order) {
        law_nothing_within_limit_fills_nothing(order.side, levels, remaining, order.price, queue);
    }
}

/// A book gives the price of a quantity only where it fills just that quantity.
pub proof fn law_price_of_a_quantity_is_of_all_of_it(
    fill: Option<(Decimal, Decimal)>,
    quantity: Decimal,
)
    ensures
        crate::market::complete_price(fill, quantity) is Some <==> (fill matches Some((filled, _))
            && filled.units() == quantity.units()),
        crate::market::complete_price(fill, quantity) matches Some(price) ==> (fill matches Some(
            (_, paid),
        ) && paid == price),
{
}

/// What is taken at a level is paid for at the price of the level: so much more is filled, so much
/// less is wanted, and the value of it is added to what was paid before. Before its first level a
/// walk has paid and filled nothing and wants everything.
pub proof fn law_level_is_taken_at_its_price(
    walk: Walk,
    level: MockMarketLevel,
    amount: Decimal,
    quantity: Decimal,
)
    requires
        amount.times(level.price) matches Some(value) && value.units() * pow10(MAX_SCALE as nat)
            == amount.units() * level.price.units() && crate::laws::adds_up(walk.notional, value),
        crate::laws::adds_up(walk.filled, amount),
        crate::laws::subtracts_up(walk.wanted, amount),
    ensures
        take_level(walk, level, amount) matches Some(next) && {
            &&& (next.notional.units() - walk.notional.units()) * pow10(MAX_SCALE as nat)
                == amount.units() * level.price.units()
            &&& next.filled.units() == walk.filled.units() + amount.units()
            &&& next.wanted.units() == walk.wanted.units() - amount.units()
        },
        walk_start(quantity).notional.units() == 0,
        walk_start(quantity).filled.units() == 0,
        walk_start(quantity).wanted == quantity,
{
    lemma_nought();
}

} // verus!
