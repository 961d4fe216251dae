//! The account of a paper exchange: balances, orders, reservations and trades.

use crate::decimal::Decimal;
use crate::instrument::{ExchangeId, Instrument, Side};
use crate::names::{views, NameMap, Named, Replicate};
use crate::order::{
    cancel_result_view, ActiveOrderState, ApiError, Cancelled, InactiveOrderState, Open, Order,
    OrderError, OrderState,
};
use crate::text::{joined3, joined4, same_text};
use crate::time::Timestamp;
use vstd::pervasive::unreached;
use vstd::prelude::*;

verus! {

/// How much of an asset there is, and how much of it is free to use.
#[derive(Debug, Clone, Copy, PartialEq, Eq)]
pub struct Balance {
    pub total: Decimal,
    pub free: Decimal,
}

/// The balance of an asset at a point in time.
#[derive(Debug, PartialEq, Eq)]
pub struct AssetBalance<N> {
    pub asset: N,
    pub balance: Balance,
    pub time_exchange: Timestamp,
}

impl View for AssetBalance<String> {
    type V = AssetBalance<Seq<char>>;

    open spec fn view(&self) -> AssetBalance<Seq<char>> {
        AssetBalance {
            asset: self.asset@,
            balance: self.balance,
            time_exchange: self.time_exchange,
        }
    }
}

impl Clone for AssetBalance<String> {
    fn clone(&self) -> (result: Self)
        ensures
            result == *self,
    {
        AssetBalance {
            asset: self.asset.clone(),
            balance: self.balance,
            time_exchange: self.time_exchange,
        }
    }
}

/// What a trade cost, in the quote asset.
#[derive(Debug, Clone, Copy, PartialEq, Eq)]
pub struct AssetFees {
    pub fees: Decimal,
}

/// An execution of an order.
#[derive(Debug, PartialEq, Eq)]
pub struct Trade<N> {
    pub id: N,
    pub order_id: N,
    pub instrument: N,
    pub strategy: N,
    pub time_exchange: Timestamp,
    pub side: Side,
    pub price: Decimal,
    pub quantity: Decimal,
    pub fees: AssetFees,
}

impl View for Trade<String> {
    type V = Trade<Seq<char>>;

    open spec fn view(&self) -> Trade<Seq<char>> {
        Trade {
            id: self.id@,
            order_id: self.order_id@,
            instrument: self.instrument@,
            strategy: self.strategy@,
            time_exchange: self.time_exchange,
            side: self.side,
            price: self.price,
            quantity: self.quantity,
            fees: self.fees,
        }
    }
}

impl Clone for Trade<String> {
    fn clone(&self) -> (result: Self)
        ensures
            result == *self,
    {
        Trade {
            id: self.id.clone(),
            order_id: self.order_id.clone(),
            instrument: self.instrument.clone(),
            strategy: self.strategy.clone(),
            time_exchange: self.time_exchange,
            side: self.side,
            price: self.price,
            quantity: self.quantity,
            fees: self.fees,
        }
    }
}

/// The state of an account.
pub struct AccountState {
    balances: NameMap<AssetBalance<String>>,
    orders_open: NameMap<Order<String, Open<String>>>,
    orders_cancelled: NameMap<Order<String, Cancelled<String>>>,
    reservations: NameMap<(String, Decimal)>,
    trades: Vec<Trade<String>>,
}

/// The state of an account, in the way contracts write it.
#[verifier::ext_equal]
pub struct AccountView {
    pub balances: Named<AssetBalance<Seq<char>>>,
    pub orders_open: Named<Order<Seq<char>, Open<Seq<char>>>>,
    pub orders_cancelled: Named<Order<Seq<char>, Cancelled<Seq<char>>>>,
    pub reservations: Named<(Seq<char>, Decimal)>,
    pub trades: Seq<Trade<Seq<char>>>,
}

impl View for AccountState {
    type V = AccountView;

    closed spec fn view(&self) -> AccountView {
        AccountView {
            balances: self.balances@,
            orders_open: self.orders_open@,
            orders_cancelled: self.orders_cancelled@,
            reservations: self.reservations@,
            trades: views(self.trades@),
        }
    }
}

/// The refusal of an asset that the account does not hold.
pub open spec fn unknown_asset(asset: Seq<char>) -> ApiError<Seq<char>> {
    ApiError::AssetInvalid(asset, "MockExchange has no configured balance for this asset"@)
}

/// The refusal of a debit that the free balance does not cover.
pub open spec fn insufficient(asset: Seq<char>, free: Decimal, required: Decimal) -> ApiError<
    Seq<char>,
> {
    ApiError::BalanceInsufficient(
        asset,
        "Available Balance: "@ + free.text() + ", Required Balance: "@ + required.text(),
    )
}

/// The refusal of a change that would make the free balance negative.
pub open spec fn insufficient_for_change(
    asset: Seq<char>,
    free: Decimal,
    required: Decimal,
) -> ApiError<Seq<char>> {
    ApiError::BalanceInsufficient(
        asset,
        "Available Balance: "@ + free.text() + ", Required change: "@ + required.text(),
    )
}

/// What an order on the side still to be filled sets aside: `None` where a number is out of
/// range.
pub open spec fn reservation_amount(
    side: Side,
    remaining: Decimal,
    price: Decimal,
    fees_percent: Decimal,
) -> Option<Decimal> {
    match side {
        Side::Buy => match (remaining.times(price), Decimal::unit().plus(fees_percent)) {
            (Some(value), Some(rate)) => value.times(rate),
            _ => None,
        },
        Side::Sell => Some(remaining),
    }
}

/// What of an order is still to be filled: `None` where a number is out of range.
pub open spec fn remaining_quantity<N>(order: Order<N, Open<N>>) -> Option<Decimal> {
    order.quantity.magnitude().minus(order.state.filled_quantity.magnitude())
}

/// The asset that an order on the side pays with.
pub open spec fn paying_asset<N>(side: Side, instrument: Instrument<N>) -> N {
    match side {
        Side::Buy => instrument.underlying.quote,
        Side::Sell => instrument.underlying.base,
    }
}

impl AccountView {
    /// No free balance is below zero.
    pub open spec fn solvent(self) -> bool {
        forall|asset: Seq<char>| #[trigger]
            self.balances.map.contains_key(asset) ==> self.balances.map[asset].balance.free.units()
                >= 0
    }

    /// The free balance of an asset that the account holds.
    pub open spec fn free(self, asset: Seq<char>) -> Decimal {
        self.balances.map[asset].balance.free
    }

    /// What is set aside for the order, in units of the smallest decimal place.
    pub open spec fn reserved_units(self, cid: Seq<char>) -> int {
        match self.reservations.lookup(cid) {
            Some((_, amount)) => amount.units(),
            None => 0,
        }
    }

    /// No free balance is below zero, nothing below zero is set aside, and no active order has a
    /// price below zero.
    pub open spec fn funded(self) -> bool {
        &&& self.solvent()
        &&& forall|cid: Seq<char>| #[trigger]
            self.reservations.map.contains_key(cid) ==> self.reservations.map[cid].1.units() >= 0
        &&& forall|cid: Seq<char>| #[trigger]
            self.orders_open.map.contains_key(cid) ==> self.orders_open.map[cid].price.units() >= 0
    }

    /// The account holds the asset, and its balance takes the change without rounding.
    pub open spec fn takes_without_rounding(self, asset: Seq<char>, change: Decimal) -> bool {
        self.balances.has(asset) && self.balances.map[asset].balance.free.adds_exactly(change)
            && self.balances.map[asset].balance.total.adds_exactly(change)
    }

    /// The free and the total balance of the asset are those of another account, changed by so
    /// many units of the smallest decimal place.
    pub open spec fn moved_from(self, before: AccountView, asset: Seq<char>, units: int) -> bool {
        &&& self.balances.map[asset].balance.free.units()
            == before.balances.map[asset].balance.free.units() + units
        &&& self.balances.map[asset].balance.total.units()
            == before.balances.map[asset].balance.total.units() + units
    }

    /// The account holds both assets, and enough of the first is free.
    pub open spec fn can_pay(
        self,
        debit_asset: Seq<char>,
        debit_amount: Decimal,
        credit_asset: Seq<char>,
    ) -> bool {
        self.balances.has(debit_asset) && self.balances.has(credit_asset)
            && self.balances.map[debit_asset].balance.free.units() >= debit_amount.units()
    }

    /// A change of a balance: the account after it, and the new balance or why there is none.
    /// `None` where a number is out of range.
    pub open spec fn delta(self, asset: Seq<char>, delta: Decimal, time: Timestamp) -> Option<
        (AccountView, Result<AssetBalance<Seq<char>>, OrderError<Seq<char>>>),
    > {
        match self.balances.lookup(asset) {
            None => Some((self, Err(OrderError::Rejected(unknown_asset(asset))))),
            Some(current) => match current.balance.free.plus(delta) {
                None => None,
                Some(free) => if free.units() < 0 {
                    Some(
                        (
                            self,
                            Err(
                                OrderError::Rejected(
                                    insufficient_for_change(
                                        asset,
                                        current.balance.free,
                                        delta.negated(),
                                    ),
                                ),
                            ),
                        ),
                    )
                } else {
                    match current.balance.total.plus(delta) {
                        None => None,
                        Some(total) => {
                            let updated = AssetBalance {
                                asset: current.asset,
                                balance: Balance { total, free },
                                time_exchange: time,
                            };
                            Some((self.with_balance(asset, updated), Ok(updated)))
                        },
                    }
                },
            },
        }
    }

    /// The account with another balance under the asset.
    pub open spec fn with_balance(
        self,
        asset: Seq<char>,
        balance: AssetBalance<Seq<char>>,
    ) -> AccountView {
        AccountView { balances: self.balances.put(asset, balance), ..self }
    }

    /// An exchange of one asset for another: the account after it, and the two new balances or
    /// why there are none. `None` where a number is out of range.
    pub open spec fn fill(
        self,
        debit_asset: Seq<char>,
        debit_amount: Decimal,
        credit_asset: Seq<char>,
        credit_amount: Decimal,
        time: Timestamp,
    ) -> Option<(AccountView, Result<Seq<AssetBalance<Seq<char>>>, OrderError<Seq<char>>>)> {
        if !self.balances.has(debit_asset) {
            Some((self, Err(OrderError::Rejected(unknown_asset(debit_asset)))))
        } else if !self.balances.has(credit_asset) {
            Some((self, Err(OrderError::Rejected(unknown_asset(credit_asset)))))
        } else if debit_amount.units() < 0 || credit_amount.units() < 0 {
            Some(
                (
                    self,
                    Err(
                        OrderError::Rejected(
                            ApiError::OrderRejected("balance changes must be non-negative"@),
                        ),
                    ),
                ),
            )
        } else if self.balances.map[debit_asset].balance.free.units() < debit_amount.units() {
            Some(
                (
                    self,
                    Err(
                        OrderError::Rejected(
                            insufficient(
                                debit_asset,
                                self.balances.map[debit_asset].balance.free,
                                debit_amount,
                            ),
                        ),
                    ),
                ),
            )
        } else {
            match self.delta(debit_asset, debit_amount.negated(), time) {
                None => None,
                Some((debited, Err(error))) => Some((debited, Err(error))),
                Some((debited, Ok(debit))) => match debited.delta(
                    credit_asset,
                    credit_amount,
                    time,
                ) {
                    None => None,
                    Some((credited, Err(error))) => Some((credited, Err(error))),
                    Some((credited, Ok(credit))) => Some((credited, Ok(seq![debit, credit]))),
                },
            }
        }
    }

    /// A part of a free balance set aside for an order: the account after it, or why it was not
    /// set aside. `None` where a number is out of range.
    pub open spec fn reserve(
        self,
        cid: Seq<char>,
        asset: Seq<char>,
        amount: Decimal,
        time: Timestamp,
    ) -> Option<(AccountView, Result<(), OrderError<Seq<char>>>)> {
        match self.balances.lookup(asset) {
            None => Some((self, Err(OrderError::Rejected(unknown_asset(asset))))),
            Some(current) => if current.balance.free.units() < amount.units() {
                Some(
                    (
                        self,
                        Err(
                            OrderError::Rejected(
                                insufficient(asset, current.balance.free, amount),
                            ),
                        ),
                    ),
                )
            } else {
                match current.balance.free.minus(amount) {
                    None => None,
                    Some(free) => {
                        let updated = AssetBalance {
                            asset: current.asset,
                            balance: Balance { total: current.balance.total, free },
                            time_exchange: time,
                        };
                        Some(
                            (
                                AccountView {
                                    balances: self.balances.put(asset, updated),
                                    reservations: self.reservations.put(cid, (asset, amount)),
                                    ..self
                                },
                                Ok(()),
                            ),
                        )
                    },
                }
            },
        }
    }

    /// What was set aside for an order free again: `None` where a number is out of range.
    pub open spec fn release(self, cid: Seq<char>, time: Timestamp) -> Option<AccountView> {
        match self.reservations.lookup(cid) {
            None => Some(self),
            Some((asset, amount)) => match self.balances.lookup(asset) {
                None => Some(AccountView { reservations: self.reservations.without(cid), ..self }),
                Some(current) => match current.balance.free.plus(amount) {
                    None => None,
                    Some(free) => {
                        let updated = AssetBalance {
                            asset: current.asset,
                            balance: Balance { total: current.balance.total, free },
                            time_exchange: time,
                        };
                        Some(
                            AccountView {
                                balances: self.balances.put(asset, updated),
                                reservations: self.reservations.without(cid),
                                ..self
                            },
                        )
                    },
                },
            },
        }
    }

    /// A cancellation: the account after it, and the cancelled order or why it was refused.
    /// `None` where a number is out of range.
    pub open spec fn cancel(
        self,
        cid: Seq<char>,
        id: Option<Seq<char>>,
        time: Timestamp,
    ) -> Option<(AccountView, Result<Cancelled<Seq<char>>, OrderError<Seq<char>>>)> {
        match self.orders_open.lookup(cid) {
            None => Some(
                (
                    self,
                    Err(
                        OrderError::Rejected(
                            ApiError::OrderRejected(
                                "order "@ + cid + " is unknown or inactive"@,
                            ),
                        ),
                    ),
                ),
            ),
            Some(order) => if id is Some && id->0 != order.state.id {
                Some(
                    (
                        self,
                        Err(
                            OrderError::Rejected(
                                ApiError::OrderRejected("order "@ + cid + " id does not match"@),
                            ),
                        ),
                    ),
                )
            } else {
                let cancelled = Cancelled { id: order.state.id, time_exchange: time };
                match self.release(cid, time) {
                    None => None,
                    Some(released) => Some(
                        (
                            AccountView {
                                orders_open: released.orders_open.without(cid),
                                orders_cancelled: released.orders_cancelled.put(
                                    cid,
                                    order.with_state(cancelled),
                                ),
                                ..released
                            },
                            Ok(cancelled),
                        ),
                    ),
                }
            },
        }
    }

    /// The account with every balance and every active order stamped with the time.
    pub open spec fn stamped(self, time: Timestamp) -> AccountView {
        AccountView {
            balances: self.balances.map_all(
                |balance: AssetBalance<Seq<char>>|
                    AssetBalance {
                        asset: balance.asset,
                        balance: balance.balance,
                        time_exchange: time,
                    },
            ),
            orders_open: self.orders_open.map_all(
                |order: Order<Seq<char>, Open<Seq<char>>>|
                    order.with_state(Open {
                        id: order.state.id,
                        time_exchange: time,
                        filled_quantity: order.state.filled_quantity,
                    }),
            ),
            ..self
        }
    }
}

/// A new balance or an error, in the way contracts write them.
pub open spec fn balance_result_view(
    result: Result<AssetBalance<String>, OrderError<String>>,
) -> Result<AssetBalance<Seq<char>>, OrderError<Seq<char>>> {
    match result {
        Ok(balance) => Ok(balance@),
        Err(error) => Err(error@),
    }
}

/// New balances or an error, in the way contracts write them.
pub open spec fn balances_result_view(
    result: Result<Vec<AssetBalance<String>>, OrderError<String>>,
) -> Result<Seq<AssetBalance<Seq<char>>>, OrderError<Seq<char>>> {
    match result {
        Ok(balances) => Ok(views(balances@)),
        Err(error) => Err(error@),
    }
}

/// Success or an error, in the way contracts write them.
pub open spec fn unit_result_view(result: Result<(), OrderError<String>>) -> Result<
    (),
    OrderError<Seq<char>>,
> {
    match result {
        Ok(()) => Ok(()),
        Err(error) => Err(error@),
    }
}

/// The refusal of an asset that the account does not hold.
pub fn unknown_asset_error(asset: &str) -> (result: ApiError<String>)
    ensures
        result@ == unknown_asset(asset@),
{
    ApiError::AssetInvalid(
        asset.to_owned(),
        "MockExchange has no configured balance for this asset".to_owned(),
    )
}

/// The refusal of a debit that the free balance does not cover.
pub fn insufficient_error(asset: &str, free: &Decimal, required: &Decimal) -> (result: ApiError<
    String,
>)
    ensures
        result@ == insufficient(asset@, *free, *required),
{
    let free = free.to_text();
    let required = required.to_text();
    ApiError::BalanceInsufficient(
        asset.to_owned(),
        joined4(
            "Available Balance: ",
            free.as_str(),
            ", Required Balance: ",
            required.as_str(),
        ),
    )
}

/// The sum of numbers whose sum is in range.
fn sum_in_range(a: &Decimal, b: &Decimal) -> (result: Decimal)
    requires
        a.plus(*b) is Some,
    ensures
        Some(result) == a.plus(*b),
        a.adds_exactly(*b) ==> result.units() == a.units() + b.units(),
        a.units() + b.units() >= 0 ==> result.units() >= 0,
{
    match a.checked_add(b) {
        Some(sum) => sum,
        None => unreached(),
    }
}

impl AccountState {
    /// The account with the given balances, orders and trades, and nothing set aside.
    pub fn new(
        balances: NameMap<AssetBalance<String>>,
        orders_open: NameMap<Order<String, Open<String>>>,
        orders_cancelled: NameMap<Order<String, Cancelled<String>>>,
        trades: Vec<Trade<String>>,
    ) -> (result: AccountState)
        ensures
            result@ == (AccountView {
                balances: balances@,
                orders_open: orders_open@,
                orders_cancelled: orders_cancelled@,
                reservations: Named::none(),
                trades: views(trades@),
            }),
    {
        AccountState {
            balances,
            orders_open,
            orders_cancelled,
            reservations: NameMap::new(),
            trades,
        }
    }

    /// The balance of the asset, if the account holds it.
    pub fn balance(&self, asset: &str) -> (result: Option<&AssetBalance<String>>)
        ensures
            (match result {
                Some(balance) => Some(balance@),
                None => None,
            }) == self@.balances.lookup(asset@),
    {
        self.balances.get(asset)
    }

    /// The balance of the asset, if the account holds it, open to change.
    pub fn balance_mut(&mut self, asset: &str) -> (result: Option<&mut AssetBalance<String>>)
        ensures
            match result {
                Some(balance) => old(self)@.balances.has(asset@) && balance@ == old(
                    self,
                )@.balances.map[asset@] && final(self)@ == old(self)@.with_balance(
                    asset@,
                    final(balance)@,
                ),
                None => !old(self)@.balances.has(asset@) && final(self)@ == old(self)@,
            },
    {
        self.balances.get_mut(asset)
    }

    /// Whether no number goes out of range in [`AccountState::apply_balance_delta`].
    fn can_apply_balance_delta(&self, asset: &str, delta: &Decimal, time: Timestamp) -> (result:
        bool)
        ensures
            result == (self@.delta(asset@, *delta, time) is Some),
    {
        match self.balances.get(asset) {
            Some(current) => match current.balance.free.checked_add(delta) {
                Some(free) => free.is_negative() || current.balance.total.checked_add(
                    delta,
                ).is_some(),
                None => false,
            },
            None => true,
        }
    }

    /// Changes the free and the total balance of the asset.
    pub fn apply_balance_delta(
        &mut self,
        asset: &str,
        delta: Decimal,
        time_exchange: Timestamp,
    ) -> (result: Result<AssetBalance<String>, OrderError<String>>)
        requires
            old(self)@.delta(asset@, delta, time_exchange) is Some,
        ensures
            old(self)@.delta(asset@, delta, time_exchange) == Some(
                (final(self)@, balance_result_view(result)),
            ),
            old(self)@.solvent() ==> final(self)@.solvent(),
            old(self)@.balances.has(asset@) && old(
                self,
            )@.balances.map[asset@].balance.free.units() + delta.units() >= 0 ==> result is Ok,
            result is Ok && old(self)@.takes_without_rounding(asset@, delta)
                ==> final(self)@.moved_from(old(self)@, asset@, delta.units()),
    {
        let current = match self.balances.get(asset) {
            Some(current) => current,
            None => return Err(OrderError::Rejected(unknown_asset_error(asset))),
        };
        let free = sum_in_range(&current.balance.free, &delta);
        if free.is_negative() {
            let available = current.balance.free.to_text();
            let required = delta.negate().to_text();
            return Err(
                OrderError::Rejected(
                    ApiError::BalanceInsufficient(
                        asset.to_owned(),
                        joined4(
                            "Available Balance: ",
                            available.as_str(),
                            ", Required change: ",
                            required.as_str(),
                        ),
                    ),
                ),
            );
        }
        let updated = AssetBalance {
            asset: current.asset.clone(),
            balance: Balance { total: sum_in_range(&current.balance.total, &delta), free },
            time_exchange,
        };
        self.balances.insert(asset.to_owned(), updated.clone());
        Ok(updated)
    }

    /// Changes the free and the total balance of the asset, unless a number would go out of
    /// range: then nothing changes.
    pub fn try_apply_balance_delta(
        &mut self,
        asset: &str,
        delta: Decimal,
        time_exchange: Timestamp,
    ) -> (result: Option<Result<AssetBalance<String>, OrderError<String>>>)
        ensures
            match result {
                Some(result) => old(self)@.delta(asset@, delta, time_exchange) == Some(
                    (final(self)@, balance_result_view(result)),
                ),
                None => old(self)@.delta(asset@, delta, time_exchange) is None && final(self)@
                    == old(self)@,
            },
    {
        if self.can_apply_balance_delta(asset, &delta, time_exchange) {
            Some(self.apply_balance_delta(asset, delta, time_exchange))
        } else {
            None
        }
    }

    /// Whether no number goes out of range in [`AccountState::apply_fill_balances`].
    fn can_apply_fill_balances(
        &self,
        debit_asset: &str,
        debit_amount: &Decimal,
        credit_asset: &str,
        credit_amount: &Decimal,
        time: Timestamp,
    ) -> (result: bool)
        ensures
            result == (self@.fill(debit_asset@, *debit_amount, credit_asset@, *credit_amount, time)
                is Some),
    {
        let debit = match self.balances.get(debit_asset) {
            Some(debit) => debit,
            None => return true,
        };
        if !self.balances.contains(credit_asset) || debit_amount.is_negative()
            || credit_amount.is_negative() || debit.balance.free.less(debit_amount) {
            return true;
        }
        let change = debit_amount.negate();
        let free = match debit.balance.free.checked_add(&change) {
            Some(free) => free,
            None => return false,
        };
        if free.is_negative() {
            return true;
        }
        let total = match debit.balance.total.checked_add(&change) {
            Some(total) => total,
            None => return false,
        };
        if same_text(debit_asset, credit_asset) {
            match free.checked_add(credit_amount) {
                Some(free) => free.is_negative() || total.checked_add(credit_amount).is_some(),
                None => false,
            }
        } else {
            self.can_apply_balance_delta(credit_asset, credit_amount, time)
        }
    }

    /// Takes an amount of one asset and gives an amount of another.
    pub fn apply_fill_balances(
        &mut self,
        debit_asset: &str,
        debit_amount: Decimal,
        credit_asset: &str,
        credit_amount: Decimal,
        time_exchange: Timestamp,
    ) -> (result: Result<Vec<AssetBalance<String>>, OrderError<String>>)
        requires
            old(self)@.fill(
                debit_asset@,
                debit_amount,
                credit_asset@,
                credit_amount,
                time_exchange,
            ) is Some,
        ensures
            old(self)@.fill(
                debit_asset@,
                debit_amount,
                credit_asset@,
                credit_amount,
                time_exchange,
            ) == Some((final(self)@, balances_result_view(result))),
            old(self)@.solvent() ==> final(self)@.solvent() && (result is Err ==> final(self)@
                == old(self)@),
            old(self)@.solvent() && old(self)@.can_pay(debit_asset@, debit_amount, credit_asset@)
                && debit_amount.units() >= 0 && credit_amount.units() >= 0 ==> result is Ok,
            result is Ok && debit_asset@ != credit_asset@ && old(self)@.takes_without_rounding(
                debit_asset@,
                debit_amount.negated(),
            ) && old(self)@.takes_without_rounding(credit_asset@, credit_amount) ==> final(
                self)@.moved_from(old(self)@, debit_asset@, -debit_amount.units())
                && final(self)@.moved_from(old(self)@, credit_asset@, credit_amount.units()),
    {
        let debit = match self.balances.get(debit_asset) {
            Some(debit) => debit,
            None => return Err(OrderError::Rejected(unknown_asset_error(debit_asset))),
        };
        if !self.balances.contains(credit_asset) {
            return Err(OrderError::Rejected(unknown_asset_error(credit_asset)));
        }
        if debit_amount.is_negative() || credit_amount.is_negative() {
            return Err(
                OrderError::Rejected(
                    ApiError::OrderRejected("balance changes must be non-negative".to_owned()),
                ),
            );
        }
        if debit.balance.free.less(&debit_amount) {
            return Err(
                OrderError::Rejected(
                    insufficient_error(debit_asset, &debit.balance.free, &debit_amount),
                ),
            );
        }
        let debit = match self.apply_balance_delta(
            debit_asset,
            debit_amount.negate(),
            time_exchange,
        ) {
            Ok(debit) => debit,
            Err(error) => return Err(error),
        };
        let credit = match self.apply_balance_delta(credit_asset, credit_amount, time_exchange) {
            Ok(credit) => credit,
            Err(error) => return Err(error),
        };
        let balances = vec![debit, credit];
        assert(views(balances@) =~= seq![debit@, credit@]);
        Ok(balances)
    }

    /// Takes an amount of one asset and gives an amount of another, unless a number would go out
    /// of range: then nothing changes.
    pub fn try_apply_fill_balances(
        &mut self,
        debit_asset: &str,
        debit_amount: Decimal,
        credit_asset: &str,
        credit_amount: Decimal,
        time_exchange: Timestamp,
    ) -> (result: Option<Result<Vec<AssetBalance<String>>, OrderError<String>>>)
        ensures
            ({
                let outcome = old(self)@.fill(
                    debit_asset@,
                    debit_amount,
                    credit_asset@,
                    credit_amount,
                    time_exchange,
                );
                match result {
                    Some(result) => outcome == Some((final(self)@, balances_result_view(result))),
                    None => outcome is None && final(self)@ == old(self)@,
                }
            }),
            old(self)@.solvent() ==> final(self)@.solvent() && (result matches Some(result)
                ==> result is Err ==> final(self)@ == old(self)@),
            old(self)@.solvent() && old(self)@.can_pay(debit_asset@, debit_amount, credit_asset@)
                && debit_amount.units() >= 0 && credit_amount.units() >= 0 ==> (
            result matches Some(result) ==> result is Ok),
    {
        if self.can_apply_fill_balances(
            debit_asset,
            &debit_amount,
            credit_asset,
            &credit_amount,
            time_exchange,
        ) {
            Some(
                self.apply_fill_balances(
                    debit_asset,
                    debit_amount,
                    credit_asset,
                    credit_amount,
                    time_exchange,
                ),
            )
        } else {
            None
        }
    }

    /// What is set aside for the order: the asset and the amount.
    pub fn reservation(&self, cid: &str) -> (result: Option<&(String, Decimal)>)
        ensures
            (match result {
                Some(reservation) => Some(reservation@),
                None => None,
            }) == self@.reservations.lookup(cid@),
    {
        self.reservations.get(cid)
    }

    /// Sets a part of the free balance of the asset aside for the order.
    pub fn reserve_balance(
        &mut self,
        cid: &str,
        asset: &str,
        amount: Decimal,
        time_exchange: Timestamp,
    ) -> (result: Result<(), OrderError<String>>)
        requires
            old(self)@.reserve(cid@, asset@, amount, time_exchange) is Some,
        ensures
            old(self)@.reserve(cid@, asset@, amount, time_exchange) == Some(
                (final(self)@, unit_result_view(result)),
            ),
            old(self)@.solvent() ==> final(self)@.solvent(),
            old(self)@.funded() && amount.units() >= 0 ==> final(self)@.funded(),
            result is Ok && old(self)@.free(asset@).subtracts_exactly(amount)
                ==> final(self)@.free(asset@).units() == old(self)@.free(asset@).units()
                - amount.units(),
    {
        let current = match self.balances.get(asset) {
            Some(current) => current,
            None => return Err(OrderError::Rejected(unknown_asset_error(asset))),
        };
        if current.balance.free.less(&amount) {
            return Err(
                OrderError::Rejected(insufficient_error(asset, &current.balance.free, &amount)),
            );
        }
        let free = match current.balance.free.checked_sub(&amount) {
            Some(free) => free,
            None => unreached(),
        };
        let updated = AssetBalance {
            asset: current.asset.clone(),
            balance: Balance { total: current.balance.total, free },
            time_exchange,
        };
        self.balances.insert(asset.to_owned(), updated);
        self.reservations.insert(cid.to_owned(), (asset.to_owned(), amount));
        Ok(())
    }

    /// Sets a part of the free balance of the asset aside for the order, unless a number would
    /// go out of range: then nothing changes.
    pub fn try_reserve_balance(
        &mut self,
        cid: &str,
        asset: &str,
        amount: Decimal,
        time_exchange: Timestamp,
    ) -> (result: Option<Result<(), OrderError<String>>>)
        ensures
            match result {
                Some(result) => old(self)@.reserve(cid@, asset@, amount, time_exchange) == Some(
                    (final(self)@, unit_result_view(result)),
                ),
                None => old(self)@.reserve(cid@, asset@, amount, time_exchange) is None
                    && final(self)@ == old(self)@,
            },
            old(self)@.solvent() ==> final(self)@.solvent(),
            old(self)@.funded() && amount.units() >= 0 ==> final(self)@.funded(),
    {
        let in_range = match self.balances.get(asset) {
            Some(current) => current.balance.free.less(&amount)
                || current.balance.free.checked_sub(&amount).is_some(),
            None => true,
        };
        if in_range {
            Some(self.reserve_balance(cid, asset, amount, time_exchange))
        } else {
            None
        }
    }

    /// Frees what is set aside for the order, if anything is.
    pub fn release_reservation(&mut self, cid: &str, time_exchange: Timestamp)
        requires
            old(self)@.release(cid@, time_exchange) is Some,
        ensures
            old(self)@.release(cid@, time_exchange) == Some(final(self)@),
            old(self)@.reservations.lookup(cid@) matches Some((asset, amount))
                ==> old(self)@.balances.has(asset) && old(self)@.free(asset).adds_exactly(amount)
                ==> final(self)@.free(asset).units() == old(self)@.free(asset).units()
                + amount.units(),
            old(self)@.solvent() && old(self)@.reserved_units(cid@) >= 0 ==> final(self)@.solvent(),
            old(self)@.funded() ==> final(self)@.funded(),
    {
        let (asset, amount) = match self.reservations.get(cid) {
            Some(reservation) => (reservation.0.clone(), reservation.1),
            None => return ,
        };
        match self.balances.get(asset.as_str()) {
            Some(current) => {
                let updated = AssetBalance {
                    asset: current.asset.clone(),
                    balance: Balance {
                        total: current.balance.total,
                        free: sum_in_range(&current.balance.free, &amount),
                    },
                    time_exchange,
                };
                self.balances.insert(asset, updated);
            },
            None => {},
        }
        let _ = self.reservations.remove(cid);
    }

    /// Whether no number goes out of range in [`AccountState::release_reservation`].
    fn can_release_reservation(&self, cid: &str, time: Timestamp) -> (result: bool)
        ensures
            result == (self@.release(cid@, time) is Some),
    {
        match self.reservations.get(cid) {
            Some(reservation) => match self.balances.get(reservation.0.as_str()) {
                Some(current) => current.balance.free.checked_add(&reservation.1).is_some(),
                None => true,
            },
            None => true,
        }
    }

    /// Frees what is set aside for the order, if anything is, unless a number would go out of
    /// range: then nothing changes and the result is `false`.
    pub fn try_release_reservation(&mut self, cid: &str, time_exchange: Timestamp) -> (result: bool)
        ensures
            result == (old(self)@.release(cid@, time_exchange) is Some),
            final(self)@ == (match old(self)@.release(cid@, time_exchange) {
                Some(released) => released,
                None => old(self)@,
            }),
            old(self)@.solvent() && old(self)@.reserved_units(cid@) >= 0 ==> final(self)@.solvent(),
            old(self)@.funded() ==> final(self)@.funded(),
    {
        let in_range = self.can_release_reservation(cid, time_exchange);
        if in_range {
            self.release_reservation(cid, time_exchange);
        }
        in_range
    }

    /// Cancels the active order: what was set aside for it is free again.
    pub fn cancel_order(
        &mut self,
        cid: &str,
        id: Option<&String>,
        time_exchange: Timestamp,
    ) -> (result: Result<Cancelled<String>, OrderError<String>>)
        requires
            old(self)@.cancel(cid@, id_view(id), time_exchange) is Some,
        ensures
            old(self)@.cancel(cid@, id_view(id), time_exchange) == Some(
                (final(self)@, cancel_result_view(result)),
            ),
            old(self)@.solvent() && old(self)@.reserved_units(cid@) >= 0 ==> final(self)@.solvent(),
            old(self)@.funded() ==> final(self)@.funded(),
    {
        let order = match self.orders_open.get(cid) {
            Some(order) => order,
            None => return Err(
                OrderError::Rejected(
                    ApiError::OrderRejected(joined3("order ", cid, " is unknown or inactive")),
                ),
            ),
        };
        let matches = match id {
            Some(id) => *id == order.state.id,
            None => true,
        };
        if !matches {
            return Err(
                OrderError::Rejected(
                    ApiError::OrderRejected(joined3("order ", cid, " id does not match")),
                ),
            );
        }
        let cancelled = Cancelled { id: order.state.id.clone(), time_exchange };
        let order_cancelled = Order {
            key: order.key.clone(),
            side: order.side,
            price: order.price,
            quantity: order.quantity,
            kind: order.kind,
            time_in_force: order.time_in_force,
            state: cancelled.clone(),
        };
        self.release_reservation(cid, time_exchange);
        let _ = self.orders_open.remove(cid);
        self.orders_cancelled.insert(cid.to_owned(), order_cancelled);
        Ok(cancelled)
    }

    /// Whether no number goes out of range in [`AccountState::cancel_order`].
    pub fn can_cancel_order(
        &self,
        cid: &str,
        id: Option<&String>,
        time: Timestamp,
    ) -> (result: bool)
        ensures
            result == (self@.cancel(cid@, id_view(id), time) is Some),
    {
        match self.orders_open.get(cid) {
            Some(order) => match id {
                Some(id) => *id != order.state.id || self.can_release_reservation(cid, time),
                None => self.can_release_reservation(cid, time),
            },
            None => true,
        }
    }

    /// Cancels the active order, unless a number would go out of range: then nothing changes.
    pub fn try_cancel_order(
        &mut self,
        cid: &str,
        id: Option<&String>,
        time_exchange: Timestamp,
    ) -> (result: Option<Result<Cancelled<String>, OrderError<String>>>)
        ensures
            match result {
                Some(result) => old(self)@.cancel(cid@, id_view(id), time_exchange) == Some(
                    (final(self)@, cancel_result_view(result)),
                ),
                None => old(self)@.cancel(cid@, id_view(id), time_exchange) is None && final(self)@
                    == old(self)@,
            },
            old(self)@.funded() ==> final(self)@.funded(),
    {
        if self.can_cancel_order(cid, id, time_exchange) {
            Some(self.cancel_order(cid, id, time_exchange))
        } else {
            None
        }
    }

    /// Adds an active order under its client order id.
    pub fn insert_open_order(&mut self, order: Order<String, Open<String>>)
        ensures
            final(self)@ == (AccountView {
                orders_open: old(self)@.orders_open.put(order@.key.cid, order@),
                ..old(self)@
            }),
    {
        let cid = order.key.cid.clone();
        self.orders_open.insert(cid, order);
    }

    /// The active order with the client order id, if there is one.
    pub fn open_order(&self, cid: &str) -> (result: Option<&Order<String, Open<String>>>)
        ensures
            (match result {
                Some(order) => Some(order@),
                None => None,
            }) == self@.orders_open.lookup(cid@),
    {
        self.orders_open.get(cid)
    }

    /// The active order with the client order id, open to change.
    pub fn open_order_mut(&mut self, cid: &str) -> (result: Option<
        &mut Order<String, Open<String>>,
    >)
        ensures
            match result {
                Some(order) => old(self)@.orders_open.has(cid@) && order@ == old(
                    self,
                )@.orders_open.map[cid@] && final(self)@ == (AccountView {
                    orders_open: old(self)@.orders_open.put(cid@, final(order)@),
                    ..old(self)@
                }),
                None => !old(self)@.orders_open.has(cid@) && final(self)@ == old(self)@,
            },
    {
        self.orders_open.get_mut(cid)
    }

    /// Takes the active order with the client order id out of the account.
    pub fn remove_filled_order(&mut self, cid: &str) -> (result: Option<
        Order<String, Open<String>>,
    >)
        ensures
            final(self)@ == (AccountView {
                orders_open: old(self)@.orders_open.without(cid@),
                ..old(self)@
            }),
            (match result {
                Some(order) => Some(order@),
                None => None,
            }) == old(self)@.orders_open.lookup(cid@),
    {
        self.orders_open.remove(cid)
    }

    /// Records a trade.
    pub fn ack_trade(&mut self, trade: Trade<String>)
        ensures
            final(self)@ == (AccountView { trades: old(self)@.trades.push(trade@), ..old(self)@ }),
    {
        self.trades.push(trade);
        assert(self@.trades =~= old(self)@.trades.push(trade@));
    }
}

/// The characters of an id, where one is given.
pub open spec fn id_view(id: Option<&String>) -> Option<Seq<char>> {
    match id {
        Some(id) => Some(id@),
        None => None,
    }
}

impl AccountState {
    /// The balances.
    pub fn balances(&self) -> (result: Vec<&AssetBalance<String>>)
        ensures
            views(result@) == self@.balances.values(),
    {
        self.balances.values()
    }

    /// The active orders, in the order in which they came.
    pub fn orders_open(&self) -> (result: Vec<&Order<String, Open<String>>>)
        ensures
            views(result@) == self@.orders_open.values(),
            self@.orders_open.consistent(),
    {
        self.orders_open.values()
    }

    /// The cancelled orders, in the order in which they came.
    pub fn orders_cancelled(&self) -> (result: Vec<&Order<String, Cancelled<String>>>)
        ensures
            views(result@) == self@.orders_cancelled.values(),
    {
        self.orders_cancelled.values()
    }

    /// The trades from the given time on.
    pub fn trades(&self, time_since: Timestamp) -> (result: Vec<&Trade<String>>)
        ensures
            views(result@) == self@.trades.filter(
                |trade: Trade<Seq<char>>| !trade.time_exchange.before(time_since),
            ),
    {
        let ghost pred = |trade: Trade<Seq<char>>| !trade.time_exchange.before(time_since);
        let mut result: Vec<&Trade<String>> = Vec::new();
        let mut next: usize = 0;
        assert(self@.trades.take(0) =~= Seq::empty());
        assert(views(result@) =~= self@.trades.take(0).filter(pred));
        while next < self.trades.len()
            invariant
                next <= self.trades.len(),
                pred == (|trade: Trade<Seq<char>>| !trade.time_exchange.before(time_since)),
                views(result@) == self@.trades.take(next as int).filter(pred),
            decreases self.trades.len() - next,
        {
            let trade = &self.trades[next];
            proof {
                assert(self@.trades.take(next + 1) =~= self@.trades.take(next as int).push(trade@));
                Seq::lemma_filter_push(self@.trades.take(next as int), trade@, pred);
            }
            if !trade.time_exchange.is_before(&time_since) {
                let ghost before = result@;
                result.push(trade);
                assert(views(result@) =~= views(before).push(trade@));
            }
            next = next + 1;
        }
        assert(self@.trades.take(next as int) =~= self@.trades);
        result
    }

    /// Stamps every balance and every active order with the time.
    pub fn update_time_exchange(&mut self, time_exchange: Timestamp)
        ensures
            final(self)@ == old(self)@.stamped(time_exchange),
            old(self)@.funded() ==> final(self)@.funded(),
    {
        let balances = self.balances.len();
        let ghost target = self@.stamped(time_exchange);
        let ghost start = self@;
        let mut next: usize = 0;
        while next < balances
            invariant
                next <= balances,
                start.balances.consistent(),
                target == start.stamped(time_exchange),
                balances == start.balances.keys.len(),
                self@.balances.keys == start.balances.keys,
                self@.balances.map.dom() == start.balances.map.dom(),
                forall|i: int|
                    0 <= i < balances ==> self@.balances.map[#[trigger] start.balances.keys[i]] == (
                    if i < next {
                        target.balances.map[start.balances.keys[i]]
                    } else {
                        start.balances.map[start.balances.keys[i]]
                    }),
                self@.orders_open == start.orders_open,
                self@.orders_cancelled == start.orders_cancelled,
                self@.reservations == start.reservations,
                self@.trades == start.trades,
            decreases balances - next,
        {
            assert(start.balances.keys.contains(start.balances.keys[next as int]));
            let balance = self.balances.value_at_mut(next);
            balance.time_exchange = time_exchange;
            assert(self@.balances.map.dom() =~= start.balances.map.dom());
            next = next + 1;
        }
        proof {
            assert forall|key: Seq<char>| start.balances.map.contains_key(key) implies #[trigger]
            self@.balances.map[key] == target.balances.map[key] by {
                assert(start.balances.keys.contains(key));
            }
            assert(self@.balances.map =~= target.balances.map);
        }
        let orders = self.orders_open.len();
        let mut next: usize = 0;
        while next < orders
            invariant
                next <= orders,
                start.orders_open.consistent(),
                target == start.stamped(time_exchange),
                orders == start.orders_open.keys.len(),
                self@.orders_open.keys == start.orders_open.keys,
                self@.orders_open.map.dom() == start.orders_open.map.dom(),
                forall|i: int|
                    0 <= i < orders ==> self@.orders_open.map[#[trigger] start.orders_open.keys[i]]
                        == (if i < next {
                        target.orders_open.map[start.orders_open.keys[i]]
                    } else {
                        start.orders_open.map[start.orders_open.keys[i]]
                    }),
                self@.balances == target.balances,
                self@.orders_cancelled == start.orders_cancelled,
                self@.reservations == start.reservations,
                self@.trades == start.trades,
            decreases orders - next,
        {
            assert(start.orders_open.keys.contains(start.orders_open.keys[next as int]));
            let order = self.orders_open.value_at_mut(next);
            order.state.time_exchange = time_exchange;
            assert(self@.orders_open.map.dom() =~= start.orders_open.map.dom());
            next = next + 1;
        }
        proof {
            assert forall|key: Seq<char>| start.orders_open.map.contains_key(key) implies #[trigger]
            self@.orders_open.map[key] == target.orders_open.map[key] by {
                assert(start.orders_open.keys.contains(key));
            }
            assert(self@.orders_open.map =~= target.orders_open.map);
            if start.funded() {
                assert forall|asset: Seq<char>| #[trigger]
                    target.balances.map.contains_key(
                    asset) implies target.balances.map[asset].balance.free.units() >= 0 by {
                    assert(start.balances.map.contains_key(asset));
                }
                assert forall|cid: Seq<char>| #[trigger]
                    target.orders_open.map.contains_key(
                    cid) implies target.orders_open.map[cid].price.units() >= 0 by {
                    assert(start.orders_open.map.contains_key(cid));
                }
            }
        }
    }
}

/// The orders of an instrument.
#[derive(Debug, PartialEq, Eq)]
pub struct InstrumentAccountSnapshot {
    pub instrument: String,
    pub orders: Vec<Order<String, OrderState<String>>>,
}

/// The orders of an instrument, in the way contracts write them.
pub struct InstrumentSnapshotView {
    pub instrument: Seq<char>,
    pub orders: Seq<Order<Seq<char>, OrderState<Seq<char>>>>,
}

impl View for InstrumentAccountSnapshot {
    type V = InstrumentSnapshotView;

    open spec fn view(&self) -> InstrumentSnapshotView {
        InstrumentSnapshotView { instrument: self.instrument@, orders: views(self.orders@) }
    }
}

/// The balances of an account and its orders by instrument.
#[derive(Debug, PartialEq, Eq)]
pub struct AccountSnapshot {
    pub exchange: ExchangeId,
    pub balances: Vec<AssetBalance<String>>,
    pub instruments: Vec<InstrumentAccountSnapshot>,
}

/// The balances of an account and its orders by instrument, in the way contracts write them.
pub struct SnapshotView {
    pub exchange: ExchangeId,
    pub balances: Seq<AssetBalance<Seq<char>>>,
    pub instruments: Seq<InstrumentSnapshotView>,
}

impl View for AccountSnapshot {
    type V = SnapshotView;

    open spec fn view(&self) -> SnapshotView {
        SnapshotView {
            exchange: self.exchange,
            balances: views(self.balances@),
            instruments: views(self.instruments@),
        }
    }
}

/// The balances by asset; of several for one asset the last counts.
pub open spec fn balances_by_asset(balances: Seq<AssetBalance<Seq<char>>>) -> Named<
    AssetBalance<Seq<char>>,
>
    decreases balances.len(),
{
    if balances.len() == 0 {
        Named::none()
    } else {
        balances_by_asset(balances.drop_last()).put(balances.last().asset, balances.last())
    }
}

/// What an order that is still to be filled sets aside, if anything: `None` outside where a
/// number is out of range.
pub open spec fn reservation_of(
    order: Order<Seq<char>, Open<Seq<char>>>,
    instruments: Named<Instrument<Seq<char>>>,
    fees_percent: Decimal,
) -> Option<Option<(Seq<char>, Decimal)>> {
    match instruments.lookup(order.key.instrument) {
        None => Some(None),
        Some(instrument) => match remaining_quantity(order) {
            None => None,
            Some(remaining) => if remaining.units() <= 0 {
                Some(None)
            } else {
                match reservation_amount(order.side, remaining, order.price, fees_percent) {
                    None => None,
                    Some(amount) => Some(Some((paying_asset(order.side, instrument), amount))),
                }
            },
        },
    }
}

impl AccountView {
    /// The account with an order of a snapshot, if it is active or cancelled.
    pub open spec fn with_order(
        self,
        order: Order<Seq<char>, OrderState<Seq<char>>>,
    ) -> AccountView {
        match order.state {
            OrderState::Active(ActiveOrderState::Open(open)) => AccountView {
                orders_open: self.orders_open.put(order.key.cid, order.with_state(open)),
                ..self
            },
            OrderState::Inactive(InactiveOrderState::Cancelled(cancelled)) => AccountView {
                orders_cancelled: self.orders_cancelled.put(
                    order.key.cid,
                    order.with_state(cancelled),
                ),
                ..self
            },
            _ => self,
        }
    }

    /// The account with the orders of a snapshot that are active or cancelled.
    pub open spec fn with_orders(
        self,
        orders: Seq<Order<Seq<char>, OrderState<Seq<char>>>>,
    ) -> AccountView
        decreases orders.len(),
    {
        if orders.len() == 0 {
            self
        } else {
            self.with_orders(orders.drop_last()).with_order(orders.last())
        }
    }

    /// The account with the orders of every instrument of a snapshot.
    pub open spec fn with_instruments(self, instruments: Seq<InstrumentSnapshotView>) -> AccountView
        decreases instruments.len(),
    {
        if instruments.len() == 0 {
            self
        } else {
            self.with_instruments(instruments.drop_last()).with_orders(instruments.last().orders)
        }
    }

    /// The account of a snapshot, with nothing set aside and no trades.
    pub open spec fn of_snapshot(snapshot: SnapshotView) -> AccountView {
        AccountView {
            balances: balances_by_asset(snapshot.balances),
            orders_open: Named::none(),
            orders_cancelled: Named::none(),
            reservations: Named::none(),
            trades: Seq::empty(),
        }.with_instruments(snapshot.instruments)
    }

    /// The account with the time on the balance of the asset, if it holds the asset.
    pub open spec fn with_balance_stamped(self, asset: Seq<char>, time: Timestamp) -> AccountView {
        match self.balances.lookup(asset) {
            Some(balance) => self.with_balance(
                asset,
                AssetBalance {
                    asset: balance.asset,
                    balance: balance.balance,
                    time_exchange: time,
                },
            ),
            None => self,
        }
    }

    /// The account with the amount recorded as set aside for the order, and the time on the
    /// balance that it is part of.
    pub open spec fn with_reservation(
        self,
        cid: Seq<char>,
        reservation: Option<(Seq<char>, Decimal)>,
        time: Timestamp,
    ) -> AccountView {
        match reservation {
            Some((asset, amount)) => AccountView {
                reservations: self.reservations.put(cid, (asset, amount)),
                ..self.with_balance_stamped(asset, time)
            },
            None => self,
        }
    }

    /// The account with what each of the orders sets aside recorded.
    pub open spec fn with_reservations(
        self,
        orders: Seq<Order<Seq<char>, Open<Seq<char>>>>,
        instruments: Named<Instrument<Seq<char>>>,
        fees_percent: Decimal,
        time: Timestamp,
    ) -> AccountView
        decreases orders.len(),
    {
        if orders.len() == 0 {
            self
        } else {
            self.with_reservations(
                orders.drop_last(),
                instruments,
                fees_percent,
                time,
            ).with_reservation(
                orders.last().key.cid,
                reservation_of(orders.last(), instruments, fees_percent)->0,
                time,
            )
        }
    }

    /// No number goes out of range when what the active orders set aside is worked out.
    pub open spec fn restorable(
        self,
        instruments: Named<Instrument<Seq<char>>>,
        fees_percent: Decimal,
    ) -> bool {
        forall|i: int|
            0 <= i < self.orders_open.values().len() ==> reservation_of(
                #[trigger] self.orders_open.values()[i],
                instruments,
                fees_percent,
            ) is Some
    }

    /// The account with what each of its active orders sets aside recorded. The free balances
    /// stay as they are.
    pub open spec fn restored(
        self,
        instruments: Named<Instrument<Seq<char>>>,
        fees_percent: Decimal,
        time: Timestamp,
    ) -> AccountView {
        self.with_reservations(self.orders_open.values(), instruments, fees_percent, time)
    }
}

/// What of an order is still to be filled, where it is in range.
pub fn order_remaining(order: &Order<String, Open<String>>) -> (result: Option<Decimal>)
    ensures
        result == remaining_quantity(order@),
{
    order.quantity.abs().checked_sub(&order.state.filled_quantity.abs())
}

/// The fees take no more than everything back.
pub open spec fn bearable(fees_percent: Decimal) -> bool {
    Decimal::unit().units() + fees_percent.units() >= 0
}

/// What an order on the side still to be filled sets aside, where it is in range.
pub fn order_reservation(
    side: Side,
    remaining: &Decimal,
    price: &Decimal,
    fees_percent: &Decimal,
) -> (result: Option<Decimal>)
    ensures
        result == reservation_amount(side, *remaining, *price, *fees_percent),
        remaining.units() >= 0 && price.units() >= 0 && bearable(*fees_percent) ==> (
        result matches Some(amount) ==> amount.units() >= 0),
{
    match side {
        Side::Buy => match (
            remaining.checked_mul(price),
            Decimal::one().checked_add(fees_percent),
        ) {
            (Some(value), Some(rate)) => value.checked_mul(&rate),
            _ => None,
        },
        Side::Sell => Some(*remaining),
    }
}

/// The asset that an order on the side pays with.
pub fn order_paying_asset(side: Side, instrument: &Instrument<String>) -> (result: &String)
    ensures
        result@ == paying_asset(side, instrument@),
{
    match side {
        Side::Buy => &instrument.underlying.quote,
        Side::Sell => &instrument.underlying.base,
    }
}

/// What an order sets aside, in the way contracts write it.
pub open spec fn reservation_view(reservation: Option<(String, Decimal)>) -> Option<
    (Seq<char>, Decimal),
> {
    match reservation {
        Some((asset, amount)) => Some((asset@, amount)),
        None => None,
    }
}

/// What an order that is still to be filled sets aside, if anything: `None` outside where a
/// number is out of range.
fn order_reservation_of(
    order: &Order<String, Open<String>>,
    instruments: &NameMap<Instrument<String>>,
    fees_percent: &Decimal,
) -> (result: Option<Option<(String, Decimal)>>)
    ensures
        (match result {
            Some(reservation) => Some(reservation_view(reservation)),
            None => None,
        }) == reservation_of(order@, instruments@, *fees_percent),
{
    let instrument = match instruments.get(order.key.instrument.as_str()) {
        Some(instrument) => instrument,
        None => return Some(None),
    };
    let remaining = match order_remaining(order) {
        Some(remaining) => remaining,
        None => return None,
    };
    if !remaining.is_positive() {
        return Some(None);
    }
    match order_reservation(order.side, &remaining, &order.price, fees_percent) {
        Some(amount) => Some(Some((order_paying_asset(order.side, instrument).clone(), amount))),
        None => None,
    }
}

impl AccountState {
    /// Adds an order of a snapshot, if it is active or cancelled.
    fn insert_order(&mut self, order: &Order<String, OrderState<String>>)
        ensures
            final(self)@ == old(self)@.with_order(order@),
    {
        match &order.state {
            OrderState::Active(ActiveOrderState::Open(open)) => {
                self.orders_open.insert(
                    order.key.cid.clone(),
                    Order {
                        key: order.key.clone(),
                        side: order.side,
                        price: order.price,
                        quantity: order.quantity,
                        kind: order.kind,
                        time_in_force: order.time_in_force,
                        state: open.clone(),
                    },
                );
            },
            OrderState::Inactive(InactiveOrderState::Cancelled(cancelled)) => {
                self.orders_cancelled.insert(
                    order.key.cid.clone(),
                    Order {
                        key: order.key.clone(),
                        side: order.side,
                        price: order.price,
                        quantity: order.quantity,
                        kind: order.kind,
                        time_in_force: order.time_in_force,
                        state: cancelled.clone(),
                    },
                );
            },
            _ => {},
        }
    }

    /// Adds the orders of a snapshot that are active or cancelled.
    fn insert_orders(&mut self, orders: &Vec<Order<String, OrderState<String>>>)
        ensures
            final(self)@ == old(self)@.with_orders(views(orders@)),
    {
        let ghost start = self@;
        let ghost all = views(orders@);
        let mut next: usize = 0;
        assert(all.take(0) =~= Seq::empty());
        while next < orders.len()
            invariant
                next <= orders.len(),
                all == views(orders@),
                self@ == start.with_orders(all.take(next as int)),
            decreases orders.len() - next,
        {
            self.insert_order(&orders[next]);
            assert(all.take(next + 1).drop_last() =~= all.take(next as int));
            next = next + 1;
        }
        assert(all.take(next as int) =~= all);
    }

    /// Records what each active order sets aside. The free balances stay as they are: those of a
    /// snapshot are already without it.
    pub fn restore_reservations(
        &mut self,
        instruments: &NameMap<Instrument<String>>,
        fees_percent: Decimal,
        time_exchange: Timestamp,
    )
        requires
            old(self)@.restorable(instruments@, fees_percent),
        ensures
            final(self)@ == old(self)@.restored(instruments@, fees_percent, time_exchange),
    {
        let ghost start = self@;
        let ghost all = start.orders_open.values();
        let count = self.orders_open.len();
        let mut next: usize = 0;
        assert(all.take(0) =~= Seq::empty());
        while next < count
            invariant
                next <= count,
                count == all.len(),
                all == start.orders_open.values(),
                start.restorable(instruments@, fees_percent),
                self@ == start.with_reservations(
                    all.take(next as int),
                    instruments@,
                    fees_percent,
                    time_exchange,
                ),
                self@.orders_open == start.orders_open,
            decreases count - next,
        {
            let order = self.orders_open.value_at(next);
            proof {
                assert(all.take(next + 1).drop_last() =~= all.take(next as int));
                assert(order@ == all[next as int]);
            }
            let cid = order.key.cid.clone();
            match order_reservation_of(order, instruments, &fees_percent) {
                Some(Some((asset, amount))) => {
                    match self.balances.get(asset.as_str()) {
                        Some(balance) => {
                            let stamped = AssetBalance {
                                asset: balance.asset.clone(),
                                balance: balance.balance,
                                time_exchange,
                            };
                            self.balances.insert(asset.clone(), stamped);
                        },
                        None => {},
                    }
                    self.reservations.insert(cid, (asset, amount));
                },
                _ => {},
            }
            next = next + 1;
        }
        assert(all.take(next as int) =~= all);
    }

    /// Records what each active order sets aside, unless a number would go out of range: then
    /// nothing changes and the result is `false`.
    pub fn try_restore_reservations(
        &mut self,
        instruments: &NameMap<Instrument<String>>,
        fees_percent: Decimal,
        time_exchange: Timestamp,
    ) -> (result: bool)
        ensures
            result == old(self)@.restorable(instruments@, fees_percent),
            final(self)@ == (if result {
                old(self)@.restored(instruments@, fees_percent, time_exchange)
            } else {
                old(self)@
            }),
    {
        let count = self.orders_open.len();
        let mut next: usize = 0;
        while next < count
            invariant
                next <= count,
                count == self@.orders_open.values().len(),
                self@ == old(self)@,
                forall|i: int|
                    0 <= i < next ==> reservation_of(
                        #[trigger] self@.orders_open.values()[i],
                        instruments@,
                        fees_percent,
                    ) is Some,
            decreases count - next,
        {
            if order_reservation_of(
                self.orders_open.value_at(next),
                instruments,
                &fees_percent,
            ).is_none() {
                return false;
            }
            next = next + 1;
        }
        self.restore_reservations(instruments, fees_percent, time_exchange);
        true
    }
}

impl AccountState {
    /// The account of a snapshot, with nothing set aside and no trades.
    pub fn from_snapshot(snapshot: &AccountSnapshot) -> (result: AccountState)
        ensures
            result@ == AccountView::of_snapshot(snapshot@),
    {
        let mut result = AccountState {
            balances: NameMap::new(),
            orders_open: NameMap::new(),
            orders_cancelled: NameMap::new(),
            reservations: NameMap::new(),
            trades: Vec::new(),
        };
        let ghost balances = views(snapshot.balances@);
        let mut next: usize = 0;
        assert(balances.take(0) =~= Seq::empty());
        assert(result@.trades =~= Seq::empty());
        let ghost empty = result@;
        while next < snapshot.balances.len()
            invariant
                next <= snapshot.balances.len(),
                balances == views(snapshot.balances@),
                result@ == (AccountView {
                    balances: balances_by_asset(balances.take(next as int)),
                    ..empty
                }),
            decreases snapshot.balances.len() - next,
        {
            let balance = snapshot.balances[next].clone();
            assert(balances.take(next + 1).drop_last() =~= balances.take(next as int));
            result.balances.insert(balance.asset.clone(), balance);
            next = next + 1;
        }
        assert(balances.take(next as int) =~= balances);
        let ghost start = result@;
        let ghost instruments = views(snapshot.instruments@);
        let mut next: usize = 0;
        assert(instruments.take(0) =~= Seq::empty());
        while next < snapshot.instruments.len()
            invariant
                next <= snapshot.instruments.len(),
                instruments == views(snapshot.instruments@),
                result@ == start.with_instruments(instruments.take(next as int)),
            decreases snapshot.instruments.len() - next,
        {
            result.insert_orders(&snapshot.instruments[next].orders);
            assert(instruments.take(next + 1).drop_last() =~= instruments.take(next as int));
            next = next + 1;
        }
        assert(instruments.take(next as int) =~= instruments);
        result
    }
}

impl From<AccountSnapshot> for AccountState {
    fn from(snapshot: AccountSnapshot) -> (result: AccountState)
        ensures
            result@ == AccountView::of_snapshot(snapshot@),
    {
        AccountState::from_snapshot(&snapshot)
    }
}

impl vstd::std_specs::convert::FromSpecImpl<AccountSnapshot> for AccountState {
    open spec fn obeys_from_spec() -> bool {
        false
    }

    open spec fn from_spec(snapshot: AccountSnapshot) -> AccountState {
        arbitrary()
    }
}

impl Replicate for AssetBalance<String> {
    fn replicate(&self) -> (result: Self) {
        self.clone()
    }
}

impl Replicate for Order<String, Open<String>> {
    fn replicate(&self) -> (result: Self) {
        self.clone()
    }
}

impl Replicate for Order<String, Cancelled<String>> {
    fn replicate(&self) -> (result: Self) {
        self.clone()
    }
}

impl Replicate for (String, Decimal) {
    fn replicate(&self) -> (result: Self) {
        (self.0.clone(), self.1)
    }
}

impl Replicate for AccountState {
    fn replicate(&self) -> (result: Self) {
        let mut trades: Vec<Trade<String>> = Vec::new();
        let mut next: usize = 0;
        while next < self.trades.len()
            invariant
                next <= self.trades.len(),
                trades.len() == next,
                forall|i: int| 0 <= i < next ==> #[trigger] trades@[i] == self.trades@[i],
            decreases self.trades.len() - next,
        {
            trades.push(self.trades[next].clone());
            next = next + 1;
        }
        assert(trades@ =~= self.trades@);
        AccountState {
            balances: self.balances.replicate(),
            orders_open: self.orders_open.replicate(),
            orders_cancelled: self.orders_cancelled.replicate(),
            reservations: self.reservations.replicate(),
            trades,
        }
    }
}

} // verus!
