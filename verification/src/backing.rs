//! What is set aside is the part of each balance that is not free.

use crate::account::{paying_asset, reservation_amount, AccountView, AssetBalance};
use crate::decimal::Decimal;
use crate::exchange::{ExchangeView, OpenRequestView};
use crate::matching::{settlement, Route, Settlement};
use crate::instrument::Instrument;
use crate::laws::{adds_up, free_units, keyed, subtracts_up, takes_exactly, total_units};
use crate::names::{lemma_without_consistent, Named};
use crate::order::{Open, Order};
use crate::time::Timestamp;
use vstd::prelude::*;

verus! {

/// The sum of the amounts of the asset, in units of the smallest decimal place.
pub open spec fn amounts_of(amounts: Seq<(Seq<char>, Decimal)>, asset: Seq<char>) -> int
    decreases amounts.len(),
{
    if amounts.len() == 0 {
        0
    } else {
        amounts_of(amounts.drop_last(), asset) + amount_of(amounts.last(), asset)
    }
}

/// The amount, where it is of the asset.
pub open spec fn amount_of(amount: (Seq<char>, Decimal), asset: Seq<char>) -> int {
    if amount.0 == asset {
        amount.1.units()
    } else {
        0
    }
}

/// What of the asset is set aside for all orders together.
pub open spec fn set_aside(account: AccountView, asset: Seq<char>) -> int {
    amounts_of(account.reservations.values(), asset)
}

/// Of every balance, what is not free is what is set aside for orders.
pub open spec fn backed(account: AccountView) -> bool {
    forall|asset: Seq<char>| #[trigger]
        account.balances.map.contains_key(asset) ==> total_units(account, asset) - free_units(
            account,
            asset,
        ) == set_aside(account, asset)
}

/// One amount less.
proof fn lemma_amounts_remove(amounts: Seq<(Seq<char>, Decimal)>, at: int, asset: Seq<char>)
    requires
        0 <= at < amounts.len(),
    ensures
        amounts_of(amounts.remove(at), asset) == amounts_of(amounts, asset) - amount_of(
            amounts[at],
            asset,
        ),
    decreases amounts.len(),
{
    if at == amounts.len() - 1 {
        assert(amounts.remove(at) =~= amounts.drop_last());
    } else {
        lemma_amounts_remove(amounts.drop_last(), at, asset);
        assert(amounts.remove(at).drop_last() =~= amounts.drop_last().remove(at));
        assert(amounts.remove(at).last() == amounts.last());
    }
}

/// One more amount.
proof fn lemma_put_amount(
    reservations: Named<(Seq<char>, Decimal)>,
    cid: Seq<char>,
    amount: (Seq<char>, Decimal),
    asset: Seq<char>,
)
    requires
        reservations.consistent(),
        !reservations.has(cid),
    ensures
        amounts_of(reservations.put(cid, amount).values(), asset) == amounts_of(
            reservations.values(),
            asset,
        ) + amount_of(amount, asset),
{
    let put = reservations.put(cid, amount);
    assert forall|i: int| 0 <= i < reservations.keys.len() implies put.values()[i]
        == reservations.values()[i] by {
        assert(reservations.keys.contains(reservations.keys[i]));
    }
    assert(put.values().drop_last() =~= reservations.values());
}

/// The amount under a name less.
proof fn lemma_without_amount(
    reservations: Named<(Seq<char>, Decimal)>,
    cid: Seq<char>,
    asset: Seq<char>,
)
    requires
        reservations.consistent(),
        reservations.has(cid),
    ensures
        amounts_of(reservations.without(cid).values(), asset) == amounts_of(
            reservations.values(),
            asset,
        ) - amount_of(reservations.map[cid], asset),
{
    reservations.keys.index_of_first_ensures(cid);
    assert(reservations.keys.contains(cid));
    let at = reservations.keys.index_of_first(cid)->0;
    let rest = reservations.without(cid);
    assert forall|i: int| 0 <= i < rest.keys.len() implies rest.values()[i]
        == reservations.values().remove(at)[i] by {
        let j = if i < at {
            i
        } else {
            i + 1
        };
        assert(rest.keys[i] == reservations.keys[j]);
        assert(reservations.keys[j] != cid);
    }
    assert(rest.values() =~= reservations.values().remove(at));
    lemma_amounts_remove(reservations.values(), at, asset);
}

/// Setting a part of a balance aside for an order that has nothing set aside yet, without
/// rounding, keeps every balance backed.
pub proof fn law_reserve_keeps_backing(
    account: AccountView,
    cid: Seq<char>,
    asset: Seq<char>,
    amount: Decimal,
    time: Timestamp,
)
    requires
        account.reservations.consistent(),
        backed(account),
        !account.reservations.has(cid),
        account.balances.has(asset) ==> subtracts_up(
            account.balances.map[asset].balance.free,
            amount,
        ),
    ensures
        account.reserve(cid, asset, amount, time) matches Some(outcome) ==> backed(outcome.0),
{
    match account.reserve(cid, asset, amount, time) {
        Some((after, Ok(()))) => {
            assert forall|other: Seq<char>| #[trigger]
                after.balances.map.contains_key(other) implies total_units(after, other)
                - free_units(after, other) == set_aside(after, other) by {
                assert(account.balances.map.contains_key(other));
                lemma_put_amount(account.reservations, cid, (asset, amount), other);
            }
        },
        _ => {},
    }
}

/// What is set aside for the order can be freed without rounding.
pub open spec fn releases_exactly(account: AccountView, cid: Seq<char>) -> bool {
    account.reservations.lookup(cid) matches Some((asset, amount)) ==> account.balances.has(asset)
        ==> adds_up(account.balances.map[asset].balance.free, amount)
}

/// Freeing what is set aside for an order, without rounding, keeps every balance backed.
pub proof fn law_release_keeps_backing(account: AccountView, cid: Seq<char>, time: Timestamp)
    requires
        account.reservations.consistent(),
        backed(account),
        releases_exactly(account, cid),
    ensures
        account.release(cid, time) matches Some(after) ==> backed(after),
{
    match account.release(cid, time) {
        Some(after) => {
            if account.reservations.has(cid) {
                assert forall|other: Seq<char>| #[trigger]
                    after.balances.map.contains_key(other) implies total_units(after, other)
                    - free_units(after, other) == set_aside(after, other) by {
                    assert(account.balances.map.contains_key(other));
                    lemma_without_amount(account.reservations, cid, other);
                }
            }
        },
        None => {},
    }
}

/// A change of a balance, without rounding, keeps every balance backed: it changes what is free
/// and the total alike.
pub proof fn law_delta_keeps_backing(
    account: AccountView,
    asset: Seq<char>,
    delta: Decimal,
    time: Timestamp,
)
    requires
        backed(account),
        account.balances.has(asset) ==> takes_exactly(account, asset, delta),
    ensures
        account.delta(asset, delta, time) matches Some(outcome) ==> backed(outcome.0),
{
    match account.delta(asset, delta, time) {
        Some((after, _)) => {
            assert(after.reservations == account.reservations);
            assert forall|other: Seq<char>| #[trigger]
                after.balances.map.contains_key(other) implies total_units(after, other)
                - free_units(after, other) == set_aside(after, other) by {
                assert(account.balances.map.contains_key(other));
            }
        },
        None => {},
    }
}

/// Both changes of a fill need no rounding.
pub open spec fn fills_exactly(
    account: AccountView,
    debit_asset: Seq<char>,
    debit_amount: Decimal,
    credit_asset: Seq<char>,
    credit_amount: Decimal,
    time: Timestamp,
) -> bool {
    &&& takes_exactly(account, debit_asset, debit_amount.negated())
    &&& account.delta(debit_asset, debit_amount.negated(), time) matches Some((debited, Ok(_)))
        ==> takes_exactly(debited, credit_asset, credit_amount)
}

/// A fill without rounding keeps every balance backed.
pub proof fn law_fill_keeps_backing(
    account: AccountView,
    debit_asset: Seq<char>,
    debit_amount: Decimal,
    credit_asset: Seq<char>,
    credit_amount: Decimal,
    time: Timestamp,
)
    requires
        backed(account),
        fills_exactly(account, debit_asset, debit_amount, credit_asset, credit_amount, time),
    ensures
        account.fill(debit_asset, debit_amount, credit_asset, credit_amount, time) matches Some(
            outcome,
        ) ==> backed(outcome.0),
{
    law_delta_keeps_backing(account, debit_asset, debit_amount.negated(), time);
    match account.delta(debit_asset, debit_amount.negated(), time) {
        Some((debited, Ok(_))) => {
            law_delta_keeps_backing(debited, credit_asset, credit_amount, time);
        },
        _ => {},
    }
}

/// A cancellation without rounding keeps every balance backed.
pub proof fn law_cancel_keeps_backing(
    account: AccountView,
    cid: Seq<char>,
    id: Option<Seq<char>>,
    time: Timestamp,
)
    requires
        account.reservations.consistent(),
        backed(account),
        releases_exactly(account, cid),
    ensures
        account.cancel(cid, id, time) matches Some(outcome) ==> backed(outcome.0),
{
    law_release_keeps_backing(account, cid, time);
    match account.cancel(cid, id, time) {
        Some((after, Ok(_))) => {
            let released = account.release(cid, time)->0;
            assert forall|other: Seq<char>| #[trigger]
                after.balances.map.contains_key(other) implies total_units(after, other)
                - free_units(after, other) == set_aside(after, other) by {
                assert(released.balances.map.contains_key(other));
            }
        },
        _ => {},
    }
}

/// Something is set aside only for active orders.
pub open spec fn reserved_for_active(account: AccountView) -> bool {
    forall|cid: Seq<char>| #[trigger]
        account.reservations.map.contains_key(cid) ==> account.orders_open.map.contains_key(cid)
}

/// A cancellation leaves something set aside only for active orders.
pub proof fn law_cancel_keeps_reservations_to_active(
    account: AccountView,
    cid: Seq<char>,
    id: Option<Seq<char>>,
    time: Timestamp,
)
    requires
        reserved_for_active(account),
    ensures
        account.cancel(cid, id, time) matches Some(outcome) ==> reserved_for_active(outcome.0),
{
}

/// A request for a new order leaves something set aside only for active orders.
pub proof fn law_open_keeps_reservations_to_active(
    exchange: ExchangeView,
    request: OpenRequestView,
)
    requires
        reserved_for_active(exchange.account),
    ensures
        exchange.open(request) matches Some(outcome) ==> reserved_for_active(
            outcome.exchange.account,
        ),
{
}

/// A fill of an active order leaves something set aside only for active orders.
pub proof fn law_fill_resting_keeps_reservations_to_active(
    exchange: ExchangeView,
    order: Order<Seq<char>, Open<Seq<char>>>,
    quantity: Decimal,
    price: Decimal,
)
    requires
        keyed(exchange.account),
        reserved_for_active(exchange.account),
        exchange.account.orders_open.has(order.key.cid),
    ensures
        exchange.fill_resting(order, quantity, price) matches Some(filled) ==> reserved_for_active(
            filled.exchange.account,
        ),
{
}

/// The arithmetic of a request for a new order needs no rounding: what an order that stays active
/// sets aside, and what an execution takes and gives.
pub open spec fn opens_exactly(
    exchange: ExchangeView,
    request: OpenRequestView,
    instrument: Instrument<Seq<char>>,
) -> bool {
    match exchange.route(request) {
        Some(Route::Rest) => {
            let asset = paying_asset(request.state.side, instrument);
            exchange.account.balances.has(asset) ==> subtracts_up(
                exchange.account.balances.map[asset].balance.free,
                reservation_amount(
                    request.state.side,
                    request.state.quantity.magnitude(),
                    request.state.price,
                    exchange.fees_percent,
                )->0,
            )
        },
        Some(Route::Execute(quantity, price)) => {
            let deal = settlement(
                request.state.side,
                instrument,
                quantity,
                price.times(quantity)->0,
                exchange.fees_percent,
            )->0;
            let filled = exchange.account.fill(
                deal.debit_asset,
                deal.debit_amount,
                deal.credit_asset,
                deal.credit_amount,
                exchange.time,
            );
            let remaining = request.state.quantity.magnitude().minus(quantity)->0;
            &&& fills_exactly(
                exchange.account,
                deal.debit_asset,
                deal.debit_amount,
                deal.credit_asset,
                deal.credit_amount,
                exchange.time,
            )
            &&& filled matches Some((account, Ok(_))) ==> exchange.rest_amount(
                request,
                remaining,
            ) matches Some(Some(amount)) ==> subtracts_up(
                account.balances.map[deal.debit_asset].balance.free,
                amount,
            )
        },
        _ => true,
    }
}

/// A request for a new order whose arithmetic needs no rounding keeps every balance backed.
pub proof fn law_open_keeps_backing(
    exchange: ExchangeView,
    request: OpenRequestView,
    instrument: Instrument<Seq<char>>,
)
    requires
        keyed(exchange.account),
        backed(exchange.account),
        reserved_for_active(exchange.account),
        exchange.instruments.lookup(request.key.instrument) == Some(instrument),
        opens_exactly(exchange, request, instrument),
    ensures
        exchange.open(request) matches Some(outcome) ==> backed(outcome.exchange.account),
{
    let account = exchange.account;
    let cid = request.key.cid;
    if !exchange.is_active(cid) {
        lemma_inactive_has_nothing_set_aside(exchange, cid);
        match exchange.route(request) {
            Some(Route::Rest) => {
                let asset = paying_asset(request.state.side, instrument);
                match reservation_amount(
                    request.state.side,
                    request.state.quantity.magnitude(),
                    request.state.price,
                    exchange.fees_percent,
                ) {
                    Some(amount) => {
                        law_reserve_keeps_backing(account, cid, asset, amount, exchange.time);
                        match account.reserve(cid, asset, amount, exchange.time) {
                            Some((reserved, Ok(()))) => {
                                match exchange.next_id() {
                                    Some((id, _)) => {
                                        let order = exchange.active_order(
                                            request,
                                            id,
                                            Decimal::nought(),
                                        );
                                        lemma_orders_do_not_back(reserved, cid, order);
                                    },
                                    None => {},
                                }
                            },
                            _ => {},
                        }
                    },
                    None => {},
                }
            },
            Some(Route::Execute(quantity, price)) => {
                match price.times(quantity) {
                    Some(value) => match settlement(
                        request.state.side,
                        instrument,
                        quantity,
                        value,
                        exchange.fees_percent,
                    ) {
                        Some(deal) => {
                            law_fill_keeps_backing(
                                account,
                                deal.debit_asset,
                                deal.debit_amount,
                                deal.credit_asset,
                                deal.credit_amount,
                                exchange.time,
                            );
                            lemma_execute_backed(
                                exchange,
                                request,
                                instrument,
                                deal,
                                quantity,
                                price,
                            );
                        },
                        None => {},
                    },
                    None => {},
                }
            },
            _ => {},
        }
    }
}

/// Nothing is set aside for a client order id that is not active.
proof fn lemma_inactive_has_nothing_set_aside(exchange: ExchangeView, cid: Seq<char>)
    requires
        keyed(exchange.account),
        reserved_for_active(exchange.account),
        !exchange.is_active(cid),
    ensures
        !exchange.account.orders_open.has(cid),
        !exchange.account.reservations.has(cid),
{
    let orders = exchange.account.orders_open;
    if orders.map.contains_key(cid) {
        assert(orders.keys.contains(cid));
        let i = choose|i: int| 0 <= i < orders.keys.len() && orders.keys[i] == cid;
        assert(orders.values()[i].key.cid == cid);
    }
}

/// An active order more changes no balance.
proof fn lemma_orders_do_not_back(
    account: AccountView,
    cid: Seq<char>,
    order: Order<Seq<char>, Open<Seq<char>>>,
)
    requires
        backed(account),
    ensures
        backed(AccountView { orders_open: account.orders_open.put(cid, order), ..account }),
{
    let after = AccountView { orders_open: account.orders_open.put(cid, order), ..account };
    assert forall|other: Seq<char>| #[trigger]
        after.balances.map.contains_key(other) implies total_units(after, other) - free_units(
        after,
        other,
    ) == set_aside(after, other) by {
        assert(account.balances.map.contains_key(other));
    }
}

/// An execution without rounding keeps every balance backed.
proof fn lemma_execute_backed(
    exchange: ExchangeView,
    request: OpenRequestView,
    instrument: Instrument<Seq<char>>,
    deal: Settlement<Seq<char>>,
    quantity: Decimal,
    price: Decimal,
)
    requires
        keyed(exchange.account),
        backed(exchange.account),
        !exchange.account.reservations.has(request.key.cid),
        exchange.route(request) == Some(Route::Execute(quantity, price)),
        price.times(quantity) is Some,
        settlement(
            request.state.side,
            instrument,
            quantity,
            price.times(quantity)->0,
            exchange.fees_percent,
        ) == Some(deal),
        opens_exactly(exchange, request, instrument),
    ensures
        exchange.execute(request, instrument, quantity, price) matches Some(outcome) ==> backed(
            outcome.exchange.account,
        ),
{
    let account = exchange.account;
    let cid = request.key.cid;
    law_fill_keeps_backing(
        account,
        deal.debit_asset,
        deal.debit_amount,
        deal.credit_asset,
        deal.credit_amount,
        exchange.time,
    );
    match account.fill(
        deal.debit_asset,
        deal.debit_amount,
        deal.credit_asset,
        deal.credit_amount,
        exchange.time,
    ) {
        Some((filled, Ok(_))) => {
            assert(filled.reservations == account.reservations);
            match request.state.quantity.magnitude().minus(quantity) {
                Some(remaining) => match exchange.rest_amount(request, remaining) {
                    Some(Some(amount)) => {
                        law_reserve_keeps_backing(
                            filled,
                            cid,
                            deal.debit_asset,
                            amount,
                            exchange.time,
                        );
                        match (
                            filled.reserve(cid, deal.debit_asset, amount, exchange.time),
                            exchange.next_id(),
                        ) {
                            (Some((reserved, _)), Some((id, _))) => {
                                lemma_orders_do_not_back(
                                    reserved,
                                    cid,
                                    exchange.active_order(request, id, quantity),
                                );
                            },
                            _ => {},
                        }
                    },
                    _ => {},
                },
                None => {},
            }
        },
        _ => {},
    }
}

/// The arithmetic of a fill of an active order needs no rounding: what is freed, what the fill
/// takes and gives, and what is set aside again.
pub open spec fn fills_resting_exactly(
    exchange: ExchangeView,
    order: Order<Seq<char>, Open<Seq<char>>>,
    quantity: Decimal,
    deal: Settlement<Seq<char>>,
) -> bool {
    let cid = order.key.cid;
    &&& releases_exactly(exchange.account, cid)
    &&& exchange.account.release(cid, exchange.time) matches Some(released) ==> {
        &&& fills_exactly(
            released,
            deal.debit_asset,
            deal.debit_amount,
            deal.credit_asset,
            deal.credit_amount,
            exchange.time,
        )
        &&& match released.fill(
            deal.debit_asset,
            deal.debit_amount,
            deal.credit_asset,
            deal.credit_amount,
            exchange.time,
        ) {
            Some((account, Ok(_))) => {
                let counted = order.state.filled_quantity.magnitude().plus(quantity)->0;
                let remaining = order.quantity.magnitude().minus(counted)->0;
                subtracts_up(
                    account.balances.map[deal.debit_asset].balance.free,
                    reservation_amount(
                        order.side,
                        remaining,
                        order.price,
                        exchange.fees_percent,
                    )->0,
                )
            },
            Some((account, Err(_))) => exchange.account.reservations.lookup(cid) matches Some(
                (asset, amount),
            ) ==> account.balances.has(asset) ==> subtracts_up(
                account.balances.map[asset].balance.free,
                amount,
            ),
            None => true,
        }
    }
}

/// A fill of an active order whose arithmetic needs no rounding keeps every balance backed.
pub proof fn law_fill_resting_keeps_backing(
    exchange: ExchangeView,
    order: Order<Seq<char>, Open<Seq<char>>>,
    instrument: Instrument<Seq<char>>,
    quantity: Decimal,
    price: Decimal,
)
    requires
        keyed(exchange.account),
        backed(exchange.account),
        exchange.instruments.lookup(order.key.instrument) == Some(instrument),
        fills_resting_exactly(
            exchange,
            order,
            quantity,
            settlement(
                order.side,
                instrument,
                quantity,
                quantity.times(price)->0,
                exchange.fees_percent,
            )->0,
        ),
    ensures
        exchange.fill_resting(order, quantity, price) matches Some(filled) ==> backed(
            filled.exchange.account,
        ),
{
    broadcast use lemma_without_consistent;

    let cid = order.key.cid;
    match quantity.times(price) {
        Some(value) => match settlement(
            order.side,
            instrument,
            quantity,
            value,
            exchange.fees_percent,
        ) {
            Some(deal) => match exchange.account.release(cid, exchange.time) {
                Some(released) => {
                    law_release_keeps_backing(exchange.account, cid, exchange.time);
                    assert(!released.reservations.has(cid));
                    assert(released.reservations.consistent());
                    law_fill_keeps_backing(
                        released,
                        deal.debit_asset,
                        deal.debit_amount,
                        deal.credit_asset,
                        deal.credit_amount,
                        exchange.time,
                    );
                    match released.fill(
                        deal.debit_asset,
                        deal.debit_amount,
                        deal.credit_asset,
                        deal.credit_amount,
                        exchange.time,
                    ) {
                        Some((account, Ok(balances))) => {
                            assert(account.reservations == released.reservations);
                            lemma_count_fill_backed(
                                exchange,
                                account,
                                order,
                                deal,
                                quantity,
                                price,
                                balances,
                            );
                        },
                        Some((account, Err(_))) => {
                            assert(account.reservations == released.reservations);
                            match exchange.account.reservations.lookup(cid) {
                                Some((asset, amount)) => {
                                    law_reserve_keeps_backing(
                                        account,
                                        cid,
                                        asset,
                                        amount,
                                        exchange.time,
                                    );
                                },
                                None => {},
                            }
                        },
                        None => {},
                    }
                },
                None => {},
            },
            None => {},
        },
        None => {},
    }
}

/// Counting a fill without rounding keeps every balance backed.
proof fn lemma_count_fill_backed(
    exchange: ExchangeView,
    account: AccountView,
    order: Order<Seq<char>, Open<Seq<char>>>,
    deal: Settlement<Seq<char>>,
    quantity: Decimal,
    price: Decimal,
    balances: Seq<AssetBalance<Seq<char>>>,
)
    requires
        account.reservations.consistent(),
        backed(account),
        !account.reservations.has(order.key.cid),
        ({
            let counted = order.state.filled_quantity.magnitude().plus(quantity)->0;
            let remaining = order.quantity.magnitude().minus(counted)->0;
            subtracts_up(
                account.balances.map[deal.debit_asset].balance.free,
                reservation_amount(order.side, remaining, order.price, exchange.fees_percent)->0,
            )
        }),
    ensures
        exchange.count_fill(account, order, deal, quantity, price, balances) matches Some(filled)
            ==> backed(filled.exchange.account),
{
    let cid = order.key.cid;
    match order.state.filled_quantity.magnitude().plus(quantity) {
        Some(filled) => match order.quantity.magnitude().minus(filled) {
            Some(remaining) => {
                let counted = ExchangeView::with_filled(account, cid, filled);
                assert(counted.balances == account.balances);
                assert(counted.reservations == account.reservations);
                lemma_same_money_backed(account, counted);
                match reservation_amount(
                    order.side,
                    remaining,
                    order.price,
                    exchange.fees_percent,
                ) {
                    Some(amount) => {
                        law_reserve_keeps_backing(
                            counted,
                            cid,
                            deal.debit_asset,
                            amount,
                            exchange.time,
                        );
                        match counted.reserve(cid, deal.debit_asset, amount, exchange.time) {
                            Some((reserved, Ok(()))) => {
                                match exchange.count_fill(
                                    account,
                                    order,
                                    deal,
                                    quantity,
                                    price,
                                    balances,
                                ) {
                                    Some(outcome) => {
                                        if remaining.units() > 0 {
                                            lemma_same_money_backed(
                                                reserved,
                                                outcome.exchange.account,
                                            );
                                        }
                                    },
                                    None => {},
                                }
                            },
                            _ => {},
                        }
                    },
                    None => {},
                }
                match exchange.count_fill(account, order, deal, quantity, price, balances) {
                    Some(outcome) => {
                        if remaining.units() <= 0 {
                            lemma_same_money_backed(counted, outcome.exchange.account);
                        }
                    },
                    None => {},
                }
            },
            None => {},
        },
        None => {},
    }
}

/// An account with the same balances and the same set aside is as backed.
proof fn lemma_same_money_backed(before: AccountView, after: AccountView)
    requires
        backed(before),
        before.balances == after.balances,
        before.reservations == after.reservations,
    ensures
        backed(after),
{
    assert forall|other: Seq<char>| #[trigger]
        after.balances.map.contains_key(other) implies total_units(after, other) - free_units(
        after,
        other,
    ) == set_aside(after, other) by {
        assert(before.balances.map.contains_key(other));
    }
}

} // verus!
