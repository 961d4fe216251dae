//! Taking requests for new orders.

use crate::account::{
    bearable, insufficient_error, order_paying_asset, order_reservation, paying_asset,
    unknown_asset_error, AssetBalance, AssetFees, Trade,
};
use crate::decimal::Decimal;
use crate::exchange::{
    ExchangeView, MockExchange, NotificationsView, OpenOrderNotifications, Snapshot,
};
use crate::instrument::{Instrument, InstrumentSpec, Side};
use crate::market::{LatencyModel, NoQueue, QueueModel};
use crate::matching::{
    blames, broken_rule, error_response, may_rest, on_grid, opened, refusal, settlement,
    unknown_instrument, Route, Settlement,
};
use crate::names::views;
use crate::order::{
    open_response_view, ActiveOrderState, ApiError, InactiveOrderState, Open, Order, OrderError,
    OrderKind, OrderRequestOpen, OrderResponseOpen, OrderState, TimeInForce,
};
use crate::text::{joined, number_text};
use crate::time::Timestamp;
use vstd::prelude::*;

verus! {

/// The answer with an error.
fn build_open_order_err_response(request: &OrderRequestOpen, error: OrderError<String>) -> (result:
    OrderResponseOpen)
    ensures
        open_response_view(result) == error_response(request@, error@),
{
    Order {
        key: request.key.clone(),
        side: request.state.side,
        price: request.state.price,
        quantity: request.state.quantity,
        kind: request.state.kind,
        time_in_force: request.state.time_in_force,
        state: Err(error),
    }
}

/// What an execution of the quantity with the value takes and gives: `None` where a number is
/// out of range.
pub(crate) fn settle_deal(
    side: Side,
    instrument: &Instrument<String>,
    quantity: Decimal,
    value: Decimal,
    fees_percent: &Decimal,
) -> (result: Option<Settlement<String>>)
    ensures
        (match result {
            Some(deal) => Some(deal@),
            None => None,
        }) == settlement(side, instrument@, quantity, value, *fees_percent),
{
    let fees = match value.checked_mul(fees_percent) {
        Some(fees) => fees,
        None => return None,
    };
    match side {
        Side::Buy => match value.checked_add(&fees) {
            Some(cost) => Some(
                Settlement {
                    debit_asset: instrument.underlying.quote.clone(),
                    debit_amount: cost,
                    credit_asset: instrument.underlying.base.clone(),
                    credit_amount: quantity,
                    fees,
                },
            ),
            None => None,
        },
        Side::Sell => match value.checked_sub(&fees) {
            Some(proceeds) => Some(
                Settlement {
                    debit_asset: instrument.underlying.base.clone(),
                    debit_amount: quantity,
                    credit_asset: instrument.underlying.quote.clone(),
                    credit_amount: proceeds,
                    fees,
                },
            ),
            None => None,
        },
    }
}

/// Whether the number is a multiple of the step, where that can be told.
fn is_on_grid(number: &Decimal, step: &Decimal) -> (result: Option<bool>)
    ensures
        result == on_grid(*number, *step),
{
    if step.is_zero() {
        Some(true)
    } else {
        match number.checked_rem(step) {
            Some(rest) => Some(rest.is_zero()),
            None => None,
        }
    }
}

/// A message, where there is one, in the way contracts write it.
pub open spec fn message_view(message: Option<&str>) -> Option<Seq<char>> {
    match message {
        Some(message) => Some(message@),
        None => None,
    }
}

/// The trading rule that the price and the quantity break, if they break one: `None` outside
/// where a number is out of range.
fn find_broken_rule(rules: &Option<InstrumentSpec>, price: &Decimal, quantity: &Decimal) -> (result:
    Option<Option<&'static str>>)
    ensures
        (match result {
            Some(message) => Some(message_view(message)),
            None => None,
        }) == broken_rule(*rules, *price, *quantity),
{
    let rules = match rules {
        Some(rules) => rules,
        None => return Some(None),
    };
    if price.less(&rules.price_min) {
        return Some(Some("price is below the minimum price"));
    }
    match is_on_grid(price, &rules.tick_size) {
        Some(true) => {},
        Some(false) => return Some(Some("price is not a multiple of the tick size")),
        None => return None,
    }
    if quantity.less(&rules.quantity_min) {
        return Some(Some("quantity is below the minimum quantity"));
    }
    match is_on_grid(quantity, &rules.quantity_increment) {
        Some(true) => {},
        Some(false) => return Some(
            Some("quantity is not a multiple of the quantity increment"),
        ),
        None => return None,
    }
    match price.checked_mul(quantity) {
        Some(value) => if value.less(&rules.notional_min) {
            Some(Some("order value is below the minimum notional"))
        } else {
            Some(None)
        },
        None => None,
    }
}

/// Whether an order of the time in force may stay active.
fn is_resting(time_in_force: TimeInForce) -> (result: bool)
    ensures
        result == may_rest(time_in_force),
{
    match time_in_force {
        TimeInForce::GoodUntilCancelled { .. } => true,
        TimeInForce::GoodUntilEndOfDay => true,
        _ => false,
    }
}

/// What becomes of a valid request.
enum Plan {
    Refuse(&'static str),
    Rest,
    Execute(Decimal, Decimal),
}

impl View for Plan {
    type V = Route;

    closed spec fn view(&self) -> Route {
        match self {
            Plan::Refuse(message) => Route::Refuse(message@),
            Plan::Rest => Route::Rest,
            Plan::Execute(quantity, price) => Route::Execute(*quantity, *price),
        }
    }
}

impl<L: LatencyModel, Q: QueueModel> MockExchange<L, Q> {
    /// The time of the exchange.
    pub fn time_exchange(&self) -> (result: Timestamp)
        ensures
            result == self@.time,
    {
        self.time_exchange_latest
    }

    /// Accepts every kind of order that there is.
    pub fn validate_order_kind_supported(&self, order_kind: OrderKind) -> (result: Result<
        (),
        OrderError<String>,
    >)
        ensures
            result is Ok,
    {
        match order_kind {
            OrderKind::Market => Ok(()),
            OrderKind::Limit => Ok(()),
        }
    }

    /// The instrument with the name, or the refusal of one that the exchange does not know.
    pub fn find_instrument_data(&self, instrument: &str) -> (result: Result<
        &Instrument<String>,
        ApiError<String>,
    >)
        ensures
            match result {
                Ok(data) => self@.instruments.lookup(instrument@) == Some(data@),
                Err(error) => !self@.instruments.has(instrument@) && error@ == unknown_instrument(
                    instrument@,
                ),
            },
    {
        match self.instruments.get(instrument) {
            Some(data) => Ok(data),
            None => Err(
                ApiError::InstrumentInvalid(
                    instrument.to_owned(),
                    joined("MockExchange is not set-up for managing: ", instrument),
                ),
            ),
        }
    }

    /// Whether an active order has the client order id.
    fn has_active(&self, cid: &String) -> (result: bool)
        ensures
            result == self@.is_active(cid@),
    {
        let orders = self.account.orders_open();
        let mut next: usize = 0;
        while next < orders.len()
            invariant
                next <= orders.len(),
                views(orders@) == self@.account.orders_open.values(),
                forall|i: int|
                    0 <= i < next ==> (#[trigger] self@.account.orders_open.values()[i]).key.cid
                        != cid@,
            decreases orders.len() - next,
        {
            assert(self@.account.orders_open.values()[next as int] == orders@[next as int]@);
            if orders[next].key.cid == *cid {
                return true;
            }
            next = next + 1;
        }
        false
    }

    /// What the book of the instrument gives a taker: `None` outside where a number is out of
    /// range.
    fn walk_book(
        &self,
        instrument: &str,
        side: Side,
        quantity: Decimal,
        limit: Option<Decimal>,
    ) -> (result: Option<Option<(Decimal, Decimal)>>)
        ensures
            result == self@.book_fill(instrument@, side, quantity, limit),
    {
        match self.market_books.get(instrument) {
            Some(book) => book.try_walk(side, quantity, limit, &NoQueue),
            None => Some(None),
        }
    }

    /// What a market order gets: `None` outside where a number is out of range.
    fn walk_market(&self, instrument: &str, side: Side, quantity: Decimal) -> (result: Option<
        Option<(Decimal, Decimal)>,
    >)
        ensures
            result == self@.market_fill(instrument@, side, quantity),
    {
        match self.walk_book(instrument, side, quantity, None) {
            Some(Some(fill)) => Some(Some(fill)),
            Some(None) => match self.last_trades.get(instrument) {
                Some(price) => Some(Some((quantity, *price))),
                None => Some(None),
            },
            None => None,
        }
    }

    /// What becomes of a valid request: `None` where a number is out of range.
    fn plan(&self, request: &OrderRequestOpen) -> (result: Option<Plan>)
        ensures
            (match result {
                Some(plan) => Some(plan@),
                None => None,
            }) == self@.route(request@),
    {
        let wanted = request.state.quantity.abs();
        let side = request.state.side;
        let time_in_force = request.state.time_in_force;
        let all_or_none = time_in_force == TimeInForce::FillOrKill;
        let instrument = request.key.instrument.as_str();
        match request.state.kind {
            OrderKind::Market => match self.walk_market(instrument, side, wanted) {
                None => None,
                Some(None) => Some(
                    Plan::Refuse("market data is unavailable for this instrument"),
                ),
                Some(Some((quantity, price))) => if all_or_none && quantity.less(&wanted) {
                    Some(Plan::Refuse("market fill-or-kill was only partially executable"))
                } else {
                    Some(Plan::Execute(quantity, price))
                },
            },
            OrderKind::Limit => match self.walk_book(
                instrument,
                side,
                wanted,
                Some(request.state.price),
            ) {
                None => None,
                Some(None) => if is_resting(time_in_force) {
                    Some(Plan::Rest)
                } else {
                    Some(Plan::Refuse("limit order did not cross the available L2 book"))
                },
                Some(Some((quantity, price))) => if time_in_force == (
                TimeInForce::GoodUntilCancelled { post_only: true }) {
                    Some(Plan::Refuse("post-only limit order would cross the book"))
                } else if all_or_none && quantity.less(&wanted) {
                    Some(Plan::Refuse("limit fill-or-kill was only partially executable"))
                } else {
                    Some(Plan::Execute(quantity, price))
                },
            },
        }
    }

    /// Hands out the next order id: `None` where the sequence is used up.
    pub(crate) fn order_id_sequence_fetch_add(&mut self) -> (result: Option<String>)
        ensures
            final(self).same_setting(*old(self)),
            match result {
                Some(id) => old(self)@.next_id() == Some((id@, final(self)@)),
                None => old(self)@.next_id() is None && final(self)@ == old(self)@,
            },
    {
        if self.order_sequence == u64::MAX {
            return None;
        }
        let sequence = self.order_sequence;
        self.order_sequence = sequence + 1;
        Some(number_text(sequence))
    }

    /// The two exchanges have the same models.
    pub open spec fn same_models(self, other: Self) -> bool {
        self.latency_model == other.latency_model && self.queue_model == other.queue_model
    }

    /// The two exchanges have the same models and differ in nothing but the account and the
    /// sequence of ids.
    pub open spec fn same_setting(self, other: Self) -> bool {
        self.same_models(other) && self@ == (ExchangeView {
            account: self@.account,
            order_sequence: self@.order_sequence,
            ..other@
        })
    }

    /// The active order of a request, with what of it is filled.
    fn build_active_order(&self, request: &OrderRequestOpen, id: &String, filled_quantity: Decimal)
        -> (result: Order<String, Open<String>>)
        ensures
            result@ == self@.active_order(request@, id@, filled_quantity),
    {
        Order {
            key: request.key.clone(),
            side: request.state.side,
            price: request.state.price,
            quantity: request.state.quantity,
            kind: request.state.kind,
            time_in_force: request.state.time_in_force,
            state: Open {
                id: id.clone(),
                time_exchange: self.time_exchange_latest,
                filled_quantity,
            },
        }
    }

    /// Makes a limit order that meets nothing in the book active: `None` where a number is out of
    /// range.
    fn rest_order(
        &mut self,
        request: &OrderRequestOpen,
        instrument: &Instrument<String>,
    ) -> (result: Option<(OrderResponseOpen, Option<OpenOrderNotifications>)>)
        ensures
            final(self).same_setting(*old(self)),
            match result {
                Some(outcome) => old(self)@.rest(request@, instrument@) == Some(
                    opened(final(self)@, outcome),
                ),
                None => old(self)@.rest(request@, instrument@) is None,
            },
            old(self)@.account.solvent() ==> final(self)@.account.solvent(),
            old(self)@.account.funded() && bearable(old(self)@.fees_percent)
                && request.state.price.units() >= 0 ==> final(self)@.account.funded(),
            result matches Some(outcome) ==> outcome.0.state is Err ==> final(self)@.account
                == old(self)@.account,
            result matches Some(outcome) ==> blames(
                outcome.0,
                paying_asset(request@.state.side, instrument@),
            ),
    {
        let time_exchange = self.time_exchange_latest;
        let amount = match order_reservation(
            request.state.side,
            &request.state.quantity.abs(),
            &request.state.price,
            &self.fees_percent,
        ) {
            Some(amount) => amount,
            None => return None,
        };
        let id = match self.order_id_sequence_fetch_add() {
            Some(id) => id,
            None => return None,
        };
        let order = self.build_active_order(request, &id, Decimal::zero());
        match self.account.try_reserve_balance(
            request.key.cid.as_str(),
            order_paying_asset(request.state.side, instrument).as_str(),
            amount,
            time_exchange,
        ) {
            None => None,
            Some(Err(error)) => Some((build_open_order_err_response(request, error), None)),
            Some(Ok(())) => {
                self.account.insert_open_order(order.clone());
                Some(
                    (
                        Order {
                            key: order.key,
                            side: order.side,
                            price: order.price,
                            quantity: order.quantity,
                            kind: order.kind,
                            time_in_force: order.time_in_force,
                            state: Ok(order.state),
                        },
                        None,
                    ),
                )
            },
        }
    }

    /// The free balance of the asset that is paid with, or the balance that refuses the
    /// execution.
    fn check_funds(&self, deal: &Settlement<String>) -> (result: Result<Decimal, ApiError<String>>)
        ensures
            (match result {
                Ok(free) => Ok(free),
                Err(error) => Err(error@),
            }) == self@.funds(deal@),
    {
        match self.account.balance(deal.debit_asset.as_str()) {
            None => Err(unknown_asset_error(deal.debit_asset.as_str())),
            Some(balance) => if balance.balance.free.less(&deal.debit_amount) {
                Err(
                    insufficient_error(
                        deal.debit_asset.as_str(),
                        &balance.balance.free,
                        &deal.debit_amount,
                    ),
                )
            } else if self.account.balance(deal.credit_asset.as_str()).is_none() {
                Err(unknown_asset_error(deal.credit_asset.as_str()))
            } else {
                Ok(balance.balance.free)
            },
        }
    }

    /// Whether a part of an executed order stays active.
    fn should_rest(request: &OrderRequestOpen, remaining: &Decimal) -> (result: bool)
        ensures
            result == ExchangeView::stays_active(request@, *remaining),
    {
        remaining.is_positive() && is_resting(request.state.time_in_force)
    }

    /// What the part of an executed order that stays active sets aside.
    fn find_rest_amount(&self, request: &OrderRequestOpen, remaining: &Decimal) -> (result: Option<
        Option<Decimal>,
    >)
        ensures
            result == self@.rest_amount(request@, *remaining),
            bearable(self@.fees_percent) && request.state.price.units() >= 0 ==> (result matches
                Some(Some(amount)) ==> amount.units() >= 0),
    {
        if Self::should_rest(request, remaining) {
            match order_reservation(
                request.state.side,
                remaining,
                &request.state.price,
                &self.fees_percent,
            ) {
                Some(amount) => Some(Some(amount)),
                None => None,
            }
        } else {
            Some(None)
        }
    }

    /// What the client is told about an execution.
    fn build_notifications(
        &self,
        request: &OrderRequestOpen,
        balances: Vec<AssetBalance<String>>,
        id: &String,
        quantity: Decimal,
        price: Decimal,
        remaining: &Decimal,
        fees: Decimal,
    ) -> (result: OpenOrderNotifications)
        ensures
            result@ == (NotificationsView {
                balances: views(balances@),
                trade: Some(self@.executed_trade(request@, id@, quantity, price, fees)),
                order: Some(self@.executed_order(request@, id@, quantity, price, *remaining)),
            }),
    {
        let rests = Self::should_rest(request, remaining);
        let state = if rests {
            OrderState::Active(
                ActiveOrderState::Open(
                    Open {
                        id: id.clone(),
                        time_exchange: self.time_exchange_latest,
                        filled_quantity: quantity,
                    },
                ),
            )
        } else if remaining.is_positive() {
            OrderState::Inactive(InactiveOrderState::Expired)
        } else {
            OrderState::Inactive(InactiveOrderState::FullyFilled)
        };
        let order = Order {
            key: request.key.clone(),
            side: request.state.side,
            price: if rests {
                request.state.price
            } else {
                price
            },
            quantity: request.state.quantity,
            kind: request.state.kind,
            time_in_force: request.state.time_in_force,
            state,
        };
        let trade = Trade {
            id: id.clone(),
            order_id: id.clone(),
            instrument: request.key.instrument.clone(),
            strategy: request.key.strategy.clone(),
            time_exchange: self.time_exchange_latest,
            side: request.state.side,
            price,
            quantity,
            fees: AssetFees { fees },
        };
        OpenOrderNotifications {
            balances: snapshots(balances),
            trade: Some(trade),
            order: Some(Snapshot(order)),
        }
    }

    /// Settles an execution that the funds cover: `None` where a number is out of range.
    fn settle_order(
        &mut self,
        request: &OrderRequestOpen,
        deal: Settlement<String>,
        quantity: Decimal,
        price: Decimal,
        remaining: Decimal,
        reserved: Option<Decimal>,
    ) -> (result: Option<(OrderResponseOpen, Option<OpenOrderNotifications>)>)
        ensures
            final(self).same_setting(*old(self)),
            ({
                let outcome = old(self)@.settle(
                    request@,
                    deal@,
                    quantity,
                    price,
                    remaining,
                    reserved,
                );
                match result {
                    Some(result) => outcome == Some(opened(final(self)@, result)),
                    None => outcome is None,
                }
            }),
            old(self)@.account.solvent() ==> final(self)@.account.solvent(),
            old(self)@.account.funded() && request.state.price.units() >= 0 && (reserved matches
                Some(amount) ==> amount.units() >= 0) ==> final(self)@.account.funded(),
            result matches Some(result) ==> old(self)@.account.solvent() ==> result.0.state is Err
                ==> final(self)@.account == old(self)@.account,
            result matches Some(result) ==> old(self)@.account.solvent()
                && old(self)@.account.can_pay(
                deal@.debit_asset,
                deal@.debit_amount,
                deal@.credit_asset,
            ) ==> blames(result.0, deal@.debit_asset),
    {
        let time_exchange = self.time_exchange_latest;
        let balances = match self.account.try_apply_fill_balances(
            deal.debit_asset.as_str(),
            deal.debit_amount,
            deal.credit_asset.as_str(),
            deal.credit_amount,
            time_exchange,
        ) {
            None => return None,
            Some(Err(error)) => return Some((build_open_order_err_response(request, error), None)),
            Some(Ok(balances)) => balances,
        };
        let id = match self.order_id_sequence_fetch_add() {
            Some(id) => id,
            None => return None,
        };
        let order = self.build_active_order(request, &id, quantity);
        match reserved {
            Some(amount) => {
                if self.account.try_reserve_balance(
                    request.key.cid.as_str(),
                    deal.debit_asset.as_str(),
                    amount,
                    time_exchange,
                ).is_none() {
                    return None;
                }
                self.account.insert_open_order(order.clone());
            },
            None => {},
        }
        let notifications = self.build_notifications(
            request,
            balances,
            &id,
            quantity,
            price,
            &remaining,
            deal.fees,
        );
        let response = Order {
            key: order.key,
            side: order.side,
            price,
            quantity: order.quantity,
            kind: order.kind,
            time_in_force: order.time_in_force,
            state: Ok(order.state),
        };
        Some((response, Some(notifications)))
    }

    /// Executes a request at once: `None` where a number is out of range.
    fn execute_order(
        &mut self,
        request: &OrderRequestOpen,
        instrument: &Instrument<String>,
        quantity: Decimal,
        price: Decimal,
    ) -> (result: Option<(OrderResponseOpen, Option<OpenOrderNotifications>)>)
        ensures
            final(self).same_setting(*old(self)),
            ({
                let outcome = old(self)@.execute(request@, instrument@, quantity, price);
                match result {
                    Some(result) => outcome == Some(opened(final(self)@, result)),
                    None => outcome is None,
                }
            }),
            old(self)@.account.solvent() ==> final(self)@.account.solvent(),
            old(self)@.account.funded() && bearable(old(self)@.fees_percent)
                && request.state.price.units() >= 0 ==> final(self)@.account.funded(),
            result matches Some(result) ==> old(self)@.account.solvent() ==> result.0.state is Err
                ==> final(self)@.account == old(self)@.account,
            result matches Some(result) ==> old(self)@.account.solvent() ==> blames(
                result.0,
                paying_asset(request@.state.side, instrument@),
            ),
    {
        let value = match price.checked_mul(&quantity) {
            Some(value) => value,
            None => return None,
        };
        let deal = match settle_deal(
            request.state.side,
            instrument,
            quantity,
            value,
            &self.fees_percent,
        ) {
            Some(deal) => deal,
            None => return None,
        };
        let free = match self.check_funds(&deal) {
            Ok(free) => free,
            Err(error) => return Some(
                (build_open_order_err_response(request, OrderError::Rejected(error)), None),
            ),
        };
        let remaining = match request.state.quantity.abs().checked_sub(&quantity) {
            Some(remaining) => remaining,
            None => return None,
        };
        let reserved = match self.find_rest_amount(request, &remaining) {
            Some(reserved) => reserved,
            None => return None,
        };
        match reserved {
            Some(amount) => match deal.debit_amount.checked_add(&amount) {
                Some(needed) => {
                    if free.less(&needed) {
                        let error = insufficient_error(deal.debit_asset.as_str(), &free, &amount);
                        return Some(
                            (
                                build_open_order_err_response(
                                    request,
                                    OrderError::Rejected(error),
                                ),
                                None,
                            ),
                        );
                    }
                },
                None => return None,
            },
            None => {},
        }
        self.settle_order(request, deal, quantity, price, remaining, reserved)
    }

    /// Takes a request for a new order: `None` where a number is out of range, and nothing is
    /// then said of the exchange.
    pub(crate) fn place_order(&mut self, request: &OrderRequestOpen) -> (result: Option<
        (OrderResponseOpen, Option<OpenOrderNotifications>),
    >)
        ensures
            final(self).same_setting(*old(self)),
            match result {
                Some(result) => old(self)@.open(request@) == Some(opened(final(self)@, result)),
                None => old(self)@.open(request@) is None,
            },
            old(self)@.account.solvent() ==> final(self)@.account.solvent(),
            old(self)@.account.funded() && bearable(old(self)@.fees_percent)
                ==> final(self)@.account.funded(),
            result matches Some(result) ==> old(self)@.account.solvent() ==> result.0.state is Err
                ==> final(self)@.account == old(self)@.account,
            result matches Some(result) ==> old(self)@.account.solvent() && old(
                self,
            )@.instruments.has(request@.key.instrument) ==> blames(
                result.0,
                paying_asset(
                    request@.state.side,
                    old(self)@.instruments.map[request@.key.instrument],
                ),
            ),
    {
        if self.has_active(&request.key.cid) {
            return Some((reject(request, "client order id is already active"), None));
        }
        match self.validate_order_kind_supported(request.state.kind) {
            Ok(()) => {},
            Err(error) => return Some((build_open_order_err_response(request, error), None)),
        }
        if !request.state.price.is_positive() || !request.state.quantity.is_positive() {
            return Some((reject(request, "price and quantity must be positive"), None));
        }
        let instrument = match self.find_instrument_data(request.key.instrument.as_str()) {
            Ok(instrument) => instrument.clone(),
            Err(error) => return Some(
                (build_open_order_err_response(request, OrderError::Rejected(error)), None),
            ),
        };
        match find_broken_rule(&instrument.spec, &request.state.price, &request.state.quantity) {
            None => return None,
            Some(Some(message)) => return Some((reject(request, message), None)),
            Some(None) => {},
        }
        match self.plan(request) {
            None => None,
            Some(Plan::Refuse(message)) => Some((reject(request, message), None)),
            Some(Plan::Rest) => self.rest_order(request, &instrument),
            Some(Plan::Execute(quantity, price)) => self.execute_order(
                request,
                &instrument,
                quantity,
                price,
            ),
        }
    }
}

/// The answer that rejects a request with the message.
fn reject(request: &OrderRequestOpen, message: &str) -> (result: OrderResponseOpen)
    ensures
        open_response_view(result) == refusal(request@, ApiError::OrderRejected(message@)),
{
    build_open_order_err_response(
        request,
        OrderError::Rejected(ApiError::OrderRejected(message.to_owned())),
    )
}

/// The balances as they stand after a change.
pub(crate) fn snapshots(balances: Vec<AssetBalance<String>>) -> (result: Vec<
    Snapshot<AssetBalance<String>>,
>)
    ensures
        views(result@) == views(balances@),
{
    let mut result: Vec<Snapshot<AssetBalance<String>>> = Vec::new();
    let mut next: usize = 0;
    while next < balances.len()
        invariant
            next <= balances.len(),
            result.len() == next,
            forall|i: int| 0 <= i < next ==> (#[trigger] result@[i])@ == balances@[i]@,
        decreases balances.len() - next,
    {
        result.push(Snapshot(balances[next].clone()));
        next = next + 1;
    }
    assert(views(result@) =~= views(balances@));
    result
}

} // verus!
