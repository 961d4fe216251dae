//! What becomes of a request for a new order.

use crate::account::{
    insufficient, paying_asset, reservation_amount, unknown_asset, AccountView, AssetFees, Trade,
};
use crate::decimal::{whole_remainder, Decimal};
use crate::exchange::{
    notifications_view, ExchangeView, NotificationsView, OpenOrderNotifications, OpenRequestView,
    OpenResponseView, Opened,
};
use crate::instrument::{Instrument, InstrumentSpec, Side};
use crate::market::{fill_from, NoQueue};
use crate::order::{
    open_response_view, ActiveOrderState, ApiError, InactiveOrderState, Open, Order, OrderError,
    OrderKind, OrderResponseOpen, OrderState, TimeInForce,
};
use crate::text::number_chars;
use vstd::prelude::*;

verus! {

/// The answer that refuses a request.
pub open spec fn refusal(request: OpenRequestView, error: ApiError<Seq<char>>) -> OpenResponseView {
    error_response(request, OrderError::Rejected(error))
}

/// The answer with an error.
pub open spec fn error_response(
    request: OpenRequestView,
    error: OrderError<Seq<char>>,
) -> OpenResponseView {
    Order {
        key: request.key,
        side: request.state.side,
        price: request.state.price,
        quantity: request.state.quantity,
        kind: request.state.kind,
        time_in_force: request.state.time_in_force,
        state: Err(error),
    }
}

/// What an execution takes and gives.
pub struct Settlement<N> {
    pub debit_asset: N,
    pub debit_amount: Decimal,
    pub credit_asset: N,
    pub credit_amount: Decimal,
    pub fees: Decimal,
}

impl View for Settlement<String> {
    type V = Settlement<Seq<char>>;

    open spec fn view(&self) -> Settlement<Seq<char>> {
        Settlement {
            debit_asset: self.debit_asset@,
            debit_amount: self.debit_amount,
            credit_asset: self.credit_asset@,
            credit_amount: self.credit_amount,
            fees: self.fees,
        }
    }
}

/// What an execution of the quantity with the value takes and gives: `None` where a number is
/// out of range.
pub open spec fn settlement(
    side: Side,
    instrument: Instrument<Seq<char>>,
    quantity: Decimal,
    value: Decimal,
    fees_percent: Decimal,
) -> Option<Settlement<Seq<char>>> {
    match value.times(fees_percent) {
        None => None,
        Some(fees) => match side {
            Side::Buy => match value.plus(fees) {
                None => None,
                Some(cost) => Some(
                    Settlement {
                        debit_asset: instrument.underlying.quote,
                        debit_amount: cost,
                        credit_asset: instrument.underlying.base,
                        credit_amount: quantity,
                        fees,
                    },
                ),
            },
            Side::Sell => match value.minus(fees) {
                None => None,
                Some(proceeds) => Some(
                    Settlement {
                        debit_asset: instrument.underlying.base,
                        debit_amount: quantity,
                        credit_asset: instrument.underlying.quote,
                        credit_amount: proceeds,
                        fees,
                    },
                ),
            },
        },
    }
}

/// The number is a multiple of the step; a step of zero admits every number. `None` where a
/// number is out of range.
pub open spec fn on_grid(number: Decimal, step: Decimal) -> Option<bool> {
    if step.digits() == 0 {
        Some(true)
    } else if number.aligns_with(step) {
        Some(whole_remainder(number.units(), step.units()) == 0)
    } else {
        match number.modulo(step) {
            Some(rest) => Some(rest.digits() == 0),
            None => None,
        }
    }
}

/// The trading rule that the price and the quantity break, if they break one: `None` outside
/// where a number is out of range.
pub open spec fn broken_rule(
    rules: Option<InstrumentSpec>,
    price: Decimal,
    quantity: Decimal,
) -> Option<Option<Seq<char>>> {
    match rules {
        None => Some(None),
        Some(rules) => if price.units() < rules.price_min.units() {
            Some(Some("price is below the minimum price"@))
        } else {
            match on_grid(price, rules.tick_size) {
                None => None,
                Some(false) => Some(Some("price is not a multiple of the tick size"@)),
                Some(true) => if quantity.units() < rules.quantity_min.units() {
                    Some(Some("quantity is below the minimum quantity"@))
                } else {
                    match (
                        on_grid(quantity, rules.quantity_increment),
                        price.times(quantity),
                    ) {
                        (Some(false), _) => Some(
                            Some("quantity is not a multiple of the quantity increment"@),
                        ),
                        (Some(true), Some(value)) => Some(
                            if value.units() < rules.notional_min.units() {
                                Some("order value is below the minimum notional"@)
                            } else {
                                None
                            },
                        ),
                        _ => None,
                    }
                },
            }
        },
    }
}

/// What becomes of a valid request: it is refused, it rests, or it is executed at once.
pub enum Route {
    Refuse(Seq<char>),
    Rest,
    Execute(Decimal, Decimal),
}

/// An order of the time in force may stay active.
pub open spec fn may_rest(time_in_force: TimeInForce) -> bool {
    time_in_force is GoodUntilCancelled || time_in_force is GoodUntilEndOfDay
}

impl ExchangeView {
    /// The exchange with another account.
    pub open spec fn with_account(self, account: AccountView) -> ExchangeView {
        ExchangeView { account, ..self }
    }

    /// The outcome of a refused request.
    pub open spec fn refused(self, request: OpenRequestView, error: ApiError<Seq<char>>) -> Opened {
        Opened { exchange: self, response: refusal(request, error), notifications: None }
    }

    /// An active order has the client order id.
    pub open spec fn is_active(self, cid: Seq<char>) -> bool {
        exists|i: int|
            0 <= i < self.account.orders_open.values().len() && (
            #[trigger] self.account.orders_open.values()[i]).key.cid == cid
    }

    /// What the book of the instrument gives a taker: `None` outside where a number is out of
    /// range.
    pub open spec fn book_fill(
        self,
        instrument: Seq<char>,
        side: Side,
        quantity: Decimal,
        limit: Option<Decimal>,
    ) -> Option<Option<(Decimal, Decimal)>> {
        match self.books.lookup(instrument) {
            None => Some(None),
            Some(book) => fill_from(side, book.facing(side), quantity, limit, NoQueue),
        }
    }

    /// What a market order gets: what the book gives, or the whole quantity at the price of the
    /// last trade.
    pub open spec fn market_fill(
        self,
        instrument: Seq<char>,
        side: Side,
        quantity: Decimal,
    ) -> Option<Option<(Decimal, Decimal)>> {
        match self.book_fill(instrument, side, quantity, None) {
            None => None,
            Some(Some(fill)) => Some(Some(fill)),
            Some(None) => Some(
                match self.last_trades.lookup(instrument) {
                    Some(price) => Some((quantity, price)),
                    None => None,
                },
            ),
        }
    }

    /// What becomes of a valid request: `None` where a number is out of range.
    pub open spec fn route(self, request: OpenRequestView) -> Option<Route> {
        let wanted = request.state.quantity.magnitude();
        let all_or_none = request.state.time_in_force is FillOrKill;
        match request.state.kind {
            OrderKind::Market => match self.market_fill(
                request.key.instrument,
                request.state.side,
                wanted,
            ) {
                None => None,
                Some(None) => Some(
                    Route::Refuse("market data is unavailable for this instrument"@),
                ),
                Some(Some((quantity, price))) => Some(
                    if all_or_none && quantity.units() < wanted.units() {
                        Route::Refuse("market fill-or-kill was only partially executable"@)
                    } else {
                        Route::Execute(quantity, price)
                    },
                ),
            },
            OrderKind::Limit => match self.book_fill(
                request.key.instrument,
                request.state.side,
                wanted,
                Some(request.state.price),
            ) {
                None => None,
                Some(None) => Some(
                    if may_rest(request.state.time_in_force) {
                        Route::Rest
                    } else {
                        Route::Refuse("limit order did not cross the available L2 book"@)
                    },
                ),
                Some(Some((quantity, price))) => Some(
                    if request.state.time_in_force == (TimeInForce::GoodUntilCancelled {
                        post_only: true,
                    }) {
                        Route::Refuse("post-only limit order would cross the book"@)
                    } else if all_or_none && quantity.units() < wanted.units() {
                        Route::Refuse("limit fill-or-kill was only partially executable"@)
                    } else {
                        Route::Execute(quantity, price)
                    },
                ),
            },
        }
    }

    /// The next order id, and the exchange after handing it out: `None` where the sequence is
    /// used up.
    pub open spec fn next_id(self) -> Option<(Seq<char>, ExchangeView)> {
        if self.order_sequence == u64::MAX {
            None
        } else {
            Some(
                (
                    number_chars(self.order_sequence as nat),
                    ExchangeView { order_sequence: (self.order_sequence + 1) as u64, ..self },
                ),
            )
        }
    }

    /// The active order of a request, with what of it is filled.
    pub open spec fn active_order(
        self,
        request: OpenRequestView,
        id: Seq<char>,
        filled_quantity: Decimal,
    ) -> Order<Seq<char>, Open<Seq<char>>> {
        Order {
            key: request.key,
            side: request.state.side,
            price: request.state.price,
            quantity: request.state.quantity,
            kind: request.state.kind,
            time_in_force: request.state.time_in_force,
            state: Open { id, time_exchange: self.time, filled_quantity },
        }
    }

    /// The outcome of a limit order that meets nothing in the book: it becomes active, and what
    /// it may cost is set aside. `None` where a number is out of range.
    pub open spec fn rest(
        self,
        request: OpenRequestView,
        instrument: Instrument<Seq<char>>,
    ) -> Option<Opened> {
        match (
            self.next_id(),
            reservation_amount(
                request.state.side,
                request.state.quantity.magnitude(),
                request.state.price,
                self.fees_percent,
            ),
        ) {
            (Some((id, next)), Some(amount)) => {
                let order = self.active_order(request, id, Decimal::nought());
                let asset = paying_asset(request.state.side, instrument);
                match self.account.reserve(request.key.cid, asset, amount, self.time) {
                    None => None,
                    Some((account, Err(error))) => Some(
                        Opened {
                            exchange: next.with_account(account),
                            response: error_response(request, error),
                            notifications: None,
                        },
                    ),
                    Some((account, Ok(()))) => Some(
                        Opened {
                            exchange: next.with_account(
                                AccountView {
                                    orders_open: account.orders_open.put(request.key.cid, order),
                                    ..account
                                },
                            ),
                            response: order.with_state(Ok(order.state)),
                            notifications: None,
                        },
                    ),
                }
            },
            _ => None,
        }
    }

    /// What is left of an executed order stays active, as its time in force says.
    pub open spec fn stays_active(request: OpenRequestView, remaining: Decimal) -> bool {
        remaining.units() > 0 && may_rest(request.state.time_in_force)
    }

    /// The balance that refuses an execution, if one does, or the free balance of the asset that
    /// is paid with.
    pub open spec fn funds(self, deal: Settlement<Seq<char>>) -> Result<
        Decimal,
        ApiError<Seq<char>>,
    > {
        match self.account.balances.lookup(deal.debit_asset) {
            None => Err(unknown_asset(deal.debit_asset)),
            Some(balance) => if balance.balance.free.units() < deal.debit_amount.units() {
                Err(insufficient(deal.debit_asset, balance.balance.free, deal.debit_amount))
            } else if !self.account.balances.has(deal.credit_asset) {
                Err(unknown_asset(deal.credit_asset))
            } else {
                Ok(balance.balance.free)
            },
        }
    }

    /// What the part of an executed order that stays active sets aside: nothing where no part
    /// does. `None` where a number is out of range.
    pub open spec fn rest_amount(self, request: OpenRequestView, remaining: Decimal) -> Option<
        Option<Decimal>,
    > {
        if ExchangeView::stays_active(request, remaining) {
            match reservation_amount(
                request.state.side,
                remaining,
                request.state.price,
                self.fees_percent,
            ) {
                Some(amount) => Some(Some(amount)),
                None => None,
            }
        } else {
            Some(None)
        }
    }

    /// The free balance does not cover both the execution and what stays active: `None` where a
    /// number is out of range.
    pub open spec fn lacks_funds_to_rest(
        deal: Settlement<Seq<char>>,
        free: Decimal,
        reserved: Option<Decimal>,
    ) -> Option<bool> {
        match reserved {
            None => Some(false),
            Some(amount) => match deal.debit_amount.plus(amount) {
                None => None,
                Some(needed) => Some(free.units() < needed.units()),
            },
        }
    }

    /// The order of an execution as the client is told about it.
    pub open spec fn executed_order(
        self,
        request: OpenRequestView,
        id: Seq<char>,
        quantity: Decimal,
        price: Decimal,
        remaining: Decimal,
    ) -> Order<Seq<char>, OrderState<Seq<char>>> {
        let active = self.active_order(request, id, quantity);
        if ExchangeView::stays_active(request, remaining) {
            active.with_state(OrderState::Active(ActiveOrderState::Open(active.state)))
        } else {
            Order {
                price,
                ..active.with_state(
                    OrderState::Inactive(
                        if remaining.units() > 0 {
                            InactiveOrderState::Expired
                        } else {
                            InactiveOrderState::FullyFilled
                        },
                    ),
                )
            }
        }
    }

    /// The trade of an execution.
    pub open spec fn executed_trade(
        self,
        request: OpenRequestView,
        id: Seq<char>,
        quantity: Decimal,
        price: Decimal,
        fees: Decimal,
    ) -> Trade<Seq<char>> {
        Trade {
            id,
            order_id: id,
            instrument: request.key.instrument,
            strategy: request.key.strategy,
            time_exchange: self.time,
            side: request.state.side,
            price,
            quantity,
            fees: AssetFees { fees },
        }
    }

    /// The account after an execution whose rest, if there is one, stays active.
    pub open spec fn with_rest(
        self,
        account: AccountView,
        request: OpenRequestView,
        order: Order<Seq<char>, Open<Seq<char>>>,
        asset: Seq<char>,
        reserved: Option<Decimal>,
    ) -> Option<AccountView> {
        match reserved {
            None => Some(account),
            Some(amount) => match account.reserve(request.key.cid, asset, amount, self.time) {
                None => None,
                Some((account, _)) => Some(
                    AccountView {
                        orders_open: account.orders_open.put(request.key.cid, order),
                        ..account
                    },
                ),
            },
        }
    }

    /// The outcome of an execution that the funds cover.
    pub open spec fn settle(
        self,
        request: OpenRequestView,
        deal: Settlement<Seq<char>>,
        quantity: Decimal,
        price: Decimal,
        remaining: Decimal,
        reserved: Option<Decimal>,
    ) -> Option<Opened> {
        match self.account.fill(
            deal.debit_asset,
            deal.debit_amount,
            deal.credit_asset,
            deal.credit_amount,
            self.time,
        ) {
            None => None,
            Some((account, Err(error))) => Some(
                Opened {
                    exchange: self.with_account(account),
                    response: error_response(request, error),
                    notifications: None,
                },
            ),
            Some((account, Ok(balances))) => match self.next_id() {
                None => None,
                Some((id, next)) => {
                    let order = self.active_order(request, id, quantity);
                    match self.with_rest(account, request, order, deal.debit_asset, reserved) {
                        None => None,
                        Some(account) => Some(
                            Opened {
                                exchange: next.with_account(account),
                                response: Order {
                                    price,
                                    ..order.with_state(Ok(order.state))
                                },
                                notifications: Some(
                                    NotificationsView {
                                        balances,
                                        trade: Some(
                                            self.executed_trade(
                                                request,
                                                id,
                                                quantity,
                                                price,
                                                deal.fees,
                                            ),
                                        ),
                                        order: Some(
                                            self.executed_order(
                                                request,
                                                id,
                                                quantity,
                                                price,
                                                remaining,
                                            ),
                                        ),
                                    },
                                ),
                            },
                        ),
                    }
                },
            },
        }
    }

    /// The outcome of a request that is executed at once: `None` where a number is out of range.
    pub open spec fn execute(
        self,
        request: OpenRequestView,
        instrument: Instrument<Seq<char>>,
        quantity: Decimal,
        price: Decimal,
    ) -> Option<Opened> {
        match price.times(quantity) {
            None => None,
            Some(value) => match settlement(
                request.state.side,
                instrument,
                quantity,
                value,
                self.fees_percent,
            ) {
                None => None,
                Some(deal) => match self.funds(deal) {
                    Err(error) => Some(self.refused(request, error)),
                    Ok(free) => match request.state.quantity.magnitude().minus(quantity) {
                        None => None,
                        Some(remaining) => match self.rest_amount(request, remaining) {
                            None => None,
                            Some(reserved) => match ExchangeView::lacks_funds_to_rest(
                                deal,
                                free,
                                reserved,
                            ) {
                                None => None,
                                Some(true) => Some(
                                    self.refused(
                                        request,
                                        insufficient(deal.debit_asset, free, reserved->0),
                                    ),
                                ),
                                Some(false) => self.settle(
                                    request,
                                    deal,
                                    quantity,
                                    price,
                                    remaining,
                                    reserved,
                                ),
                            },
                        },
                    },
                },
            },
        }
    }

    /// The outcome of a request for a new order: `None` where a number is out of range.
    pub open spec fn open(self, request: OpenRequestView) -> Option<Opened> {
        if self.is_active(request.key.cid) {
            Some(
                self.refused(
                    request,
                    ApiError::OrderRejected("client order id is already active"@),
                ),
            )
        } else if request.state.price.units() <= 0 || request.state.quantity.units() <= 0 {
            Some(
                self.refused(
                    request,
                    ApiError::OrderRejected("price and quantity must be positive"@),
                ),
            )
        } else {
            match self.instruments.lookup(request.key.instrument) {
                None => Some(self.refused(request, unknown_instrument(request.key.instrument))),
                Some(instrument) => match broken_rule(
                    instrument.spec,
                    request.state.price,
                    request.state.quantity,
                ) {
                    None => None,
                    Some(Some(message)) => Some(
                        self.refused(request, ApiError::OrderRejected(message)),
                    ),
                    Some(None) => match self.route(request) {
                        None => None,
                        Some(Route::Refuse(message)) => Some(
                            self.refused(request, ApiError::OrderRejected(message)),
                        ),
                        Some(Route::Rest) => self.rest(request, instrument),
                        Some(Route::Execute(quantity, price)) => self.execute(
                            request,
                            instrument,
                            quantity,
                            price,
                        ),
                    },
                },
            }
        }
    }
}

/// The refusal of an instrument that the exchange does not know.
pub open spec fn unknown_instrument(instrument: Seq<char>) -> ApiError<Seq<char>> {
    ApiError::InstrumentInvalid(
        instrument,
        "MockExchange is not set-up for managing: "@ + instrument,
    )
}

/// The outcome of a request for a new order, in the way contracts write it.
pub open spec fn opened(
    exchange: ExchangeView,
    outcome: (OrderResponseOpen, Option<OpenOrderNotifications>),
) -> Opened {
    Opened {
        exchange,
        response: open_response_view(outcome.0),
        notifications: notifications_view(outcome.1),
    }
}

/// Where the answer is that a balance is insufficient, it names the asset.
pub open spec fn blames(response: OrderResponseOpen, asset: Seq<char>) -> bool {
    response.state matches Err(OrderError::Rejected(ApiError::BalanceInsufficient(named, _)))
        ==> named@ == asset
}

} // verus!
