//! Filling active orders from the market.

use crate::account::{
    bearable, order_remaining, order_reservation, remaining_quantity, reservation_amount,
    AccountView, AssetBalance, AssetFees, Trade,
};
use crate::decimal::Decimal;
use crate::exchange::{
    notifications_view, ExchangeView, MockExchange, NotificationsView, OpenOrderNotifications,
    Snapshot,
};
use crate::instrument::Side;
use crate::market::{
    best_first, fill_from, never_touched, BookView, LatencyModel, MockMarketEvent,
    MockMarketEventKind, MockOrderBook, QueueModel,
};
use crate::matching::{settlement, Settlement};
use crate::names::views;
use crate::order::{ActiveOrderState, InactiveOrderState, Open, Order, OrderState};
use crate::placing::{settle_deal, snapshots};
use crate::time::Timestamp;
use vstd::prelude::*;

verus! {

/// The outcome of a fill of an active order: the exchange after it, and what the client is told.
pub struct Filled {
    pub exchange: ExchangeView,
    pub notifications: Option<NotificationsView>,
}

/// The outcome of several fills.
pub struct Fills {
    pub exchange: ExchangeView,
    pub notifications: Seq<NotificationsView>,
}

impl Fills {
    /// The fills with one more behind.
    pub open spec fn then_filled(self, filled: Filled) -> Fills {
        Fills {
            exchange: filled.exchange,
            notifications: match filled.notifications {
                Some(notifications) => self.notifications.push(notifications),
                None => self.notifications,
            },
        }
    }
}

/// The balances with another in the place of the first one of the asset.
pub open spec fn with_first_replaced(
    balances: Seq<AssetBalance<Seq<char>>>,
    asset: Seq<char>,
    balance: AssetBalance<Seq<char>>,
) -> Seq<AssetBalance<Seq<char>>>
    decreases balances.len(),
{
    if balances.len() == 0 {
        balances
    } else if balances[0].asset == asset {
        balances.update(0, balance)
    } else {
        seq![balances[0]] + with_first_replaced(balances.skip(1), asset, balance)
    }
}

/// Tells the orders for the instrument.
pub open spec fn for_instrument(instrument: Seq<char>) -> spec_fn(
    Order<Seq<char>, Open<Seq<char>>>,
) -> bool {
    |order: Order<Seq<char>, Open<Seq<char>>>| order.key.instrument == instrument
}

impl ExchangeView {
    /// The account with what is filled of the active order, if it is still active.
    pub open spec fn with_filled(
        account: AccountView,
        cid: Seq<char>,
        filled_quantity: Decimal,
    ) -> AccountView {
        match account.orders_open.lookup(cid) {
            Some(order) => AccountView {
                orders_open: account.orders_open.put(
                    cid,
                    order.with_state(Open { filled_quantity, ..order.state }),
                ),
                ..account
            },
            None => account,
        }
    }

    /// The active order as the client is told about it.
    pub open spec fn active_notice(
        order: Option<Order<Seq<char>, Open<Seq<char>>>>,
    ) -> Option<Order<Seq<char>, OrderState<Seq<char>>>> {
        match order {
            Some(order) => Some(
                order.with_state(OrderState::Active(ActiveOrderState::Open(order.state))),
            ),
            None => None,
        }
    }

    /// The filled order as the client is told about it.
    pub open spec fn filled_notice(
        order: Option<Order<Seq<char>, Open<Seq<char>>>>,
    ) -> Option<Order<Seq<char>, OrderState<Seq<char>>>> {
        match order {
            Some(order) => Some(
                order.with_state(OrderState::Inactive(InactiveOrderState::FullyFilled)),
            ),
            None => None,
        }
    }

    /// The outcome of a fill once the account is settled: the trade is recorded and the client
    /// is told. `None` where the sequence of ids is used up.
    pub open spec fn announce(
        self,
        account: AccountView,
        order: Order<Seq<char>, Open<Seq<char>>>,
        deal: Settlement<Seq<char>>,
        quantity: Decimal,
        price: Decimal,
        balances: Seq<AssetBalance<Seq<char>>>,
        notice: Option<Order<Seq<char>, OrderState<Seq<char>>>>,
    ) -> Option<Filled> {
        match self.next_id() {
            None => None,
            Some((id, next)) => {
                let trade = Trade {
                    id,
                    order_id: order.state.id,
                    instrument: order.key.instrument,
                    strategy: order.key.strategy,
                    time_exchange: self.time,
                    side: order.side,
                    price,
                    quantity,
                    fees: AssetFees { fees: deal.fees },
                };
                Some(
                    Filled {
                        exchange: next.with_account(
                            AccountView { trades: account.trades.push(trade), ..account },
                        ),
                        notifications: Some(
                            NotificationsView {
                                balances: match account.balances.lookup(deal.debit_asset) {
                                    Some(balance) => with_first_replaced(
                                        balances,
                                        deal.debit_asset,
                                        balance,
                                    ),
                                    None => balances,
                                },
                                trade: Some(trade),
                                order: notice,
                            },
                        ),
                    },
                )
            },
        }
    }

    /// The outcome of a fill whose balances are changed: the order counts it, and what is left
    /// of the order is set aside anew.
    pub open spec fn count_fill(
        self,
        account: AccountView,
        order: Order<Seq<char>, Open<Seq<char>>>,
        deal: Settlement<Seq<char>>,
        quantity: Decimal,
        price: Decimal,
        balances: Seq<AssetBalance<Seq<char>>>,
    ) -> Option<Filled> {
        let cid = order.key.cid;
        match order.state.filled_quantity.magnitude().plus(quantity) {
            None => None,
            Some(filled) => match order.quantity.magnitude().minus(filled) {
                None => None,
                Some(remaining) => {
                    let counted = ExchangeView::with_filled(account, cid, filled);
                    let current = counted.orders_open.lookup(cid);
                    if remaining.units() <= 0 {
                        self.announce(
                            AccountView {
                                orders_open: counted.orders_open.without(cid),
                                ..counted
                            },
                            order,
                            deal,
                            quantity,
                            price,
                            balances,
                            ExchangeView::filled_notice(current),
                        )
                    } else {
                        match reservation_amount(
                            order.side,
                            remaining,
                            order.price,
                            self.fees_percent,
                        ) {
                            None => None,
                            Some(amount) => match counted.reserve(
                                cid,
                                deal.debit_asset,
                                amount,
                                self.time,
                            ) {
                                None => None,
                                Some((account, Err(_))) => Some(
                                    Filled {
                                        exchange: self.with_account(account),
                                        notifications: None,
                                    },
                                ),
                                Some((account, Ok(()))) => self.announce(
                                    account,
                                    order,
                                    deal,
                                    quantity,
                                    price,
                                    balances,
                                    ExchangeView::active_notice(current),
                                ),
                            },
                        }
                    }
                },
            },
        }
    }

    /// The outcome of a fill: what was set aside pays for it. Where the balances refuse it, it
    /// is set aside again.
    pub open spec fn settle_resting(
        self,
        order: Order<Seq<char>, Open<Seq<char>>>,
        deal: Settlement<Seq<char>>,
        quantity: Decimal,
        price: Decimal,
    ) -> Option<Filled> {
        let cid = order.key.cid;
        match self.account.release(cid, self.time) {
            None => None,
            Some(released) => match released.fill(
                deal.debit_asset,
                deal.debit_amount,
                deal.credit_asset,
                deal.credit_amount,
                self.time,
            ) {
                None => None,
                Some((account, Err(_))) => match self.account.reservations.lookup(cid) {
                    None => Some(
                        Filled { exchange: self.with_account(account), notifications: None },
                    ),
                    Some((asset, amount)) => match account.reserve(cid, asset, amount, self.time) {
                        None => None,
                        Some((account, _)) => Some(
                            Filled { exchange: self.with_account(account), notifications: None },
                        ),
                    },
                },
                Some((account, Ok(balances))) => self.count_fill(
                    account,
                    order,
                    deal,
                    quantity,
                    price,
                    balances,
                ),
            },
        }
    }

    /// The outcome of a fill of an active order: `None` where a number is out of range.
    pub open spec fn fill_resting(
        self,
        order: Order<Seq<char>, Open<Seq<char>>>,
        quantity: Decimal,
        price: Decimal,
    ) -> Option<Filled> {
        match self.instruments.lookup(order.key.instrument) {
            None => Some(Filled { exchange: self, notifications: None }),
            Some(instrument) => match quantity.times(price) {
                None => None,
                Some(value) => match settlement(
                    order.side,
                    instrument,
                    quantity,
                    value,
                    self.fees_percent,
                ) {
                    None => None,
                    Some(deal) => self.settle_resting(order, deal, quantity, price),
                },
            },
        }
    }

    /// The active orders for the instrument, in the order in which they came.
    pub open spec fn active_orders(self, instrument: Seq<char>) -> Seq<
        Order<Seq<char>, Open<Seq<char>>>,
    > {
        self.account.orders_open.values().filter(for_instrument(instrument))
    }

    /// What a book does to an active order.
    pub open spec fn touch<Q: QueueModel>(
        self,
        order: Order<Seq<char>, Open<Seq<char>>>,
        book: BookView,
        queue: Q,
    ) -> Option<Filled> {
        match remaining_quantity(order) {
            None => None,
            Some(remaining) => if remaining.units() <= 0 {
                Some(Filled { exchange: self, notifications: None })
            } else {
                match fill_from(
                    order.side,
                    book.facing(order.side),
                    remaining,
                    Some(order.price),
                    queue,
                ) {
                    None => None,
                    Some(None) => Some(Filled { exchange: self, notifications: None }),
                    Some(Some((quantity, price))) => self.fill_resting(order, quantity, price),
                }
            },
        }
    }

    /// What a book does to active orders, one after the other.
    pub open spec fn touch_all<Q: QueueModel>(
        self,
        orders: Seq<Order<Seq<char>, Open<Seq<char>>>>,
        book: BookView,
        queue: Q,
    ) -> Option<Fills>
        decreases orders.len(),
    {
        if orders.len() == 0 {
            Some(Fills { exchange: self, notifications: Seq::empty() })
        } else {
            match self.touch_all(orders.drop_last(), book, queue) {
                None => None,
                Some(before) => match before.exchange.touch(orders.last(), book, queue) {
                    None => None,
                    Some(filled) => Some(before.then_filled(filled)),
                },
            }
        }
    }

    /// What a public trade, of which so much is left, does to active orders, one after the
    /// other, and how much is left behind them.
    pub open spec fn trade_all<Q: QueueModel>(
        self,
        orders: Seq<Order<Seq<char>, Open<Seq<char>>>>,
        trade_price: Decimal,
        trade_quantity: Decimal,
        queue: Q,
    ) -> Option<(Fills, Decimal)>
        decreases orders.len(),
    {
        if orders.len() == 0 {
            Some((Fills { exchange: self, notifications: Seq::empty() }, trade_quantity))
        } else {
            match self.trade_all(orders.drop_last(), trade_price, trade_quantity, queue) {
                None => None,
                Some((before, left)) => before.trade_one(orders.last(), trade_price, left, queue),
            }
        }
    }

    /// What a market event does: `None` where a number is out of range.
    pub open spec fn market<Q: QueueModel>(
        self,
        instrument: Seq<char>,
        time: Timestamp,
        kind: MockMarketEventKind,
        queue: Q,
    ) -> Option<Fills> {
        match kind {
            MockMarketEventKind::OrderBook { bids, asks } => {
                let book = BookView {
                    bids: best_first(Side::Sell, bids@),
                    asks: best_first(Side::Buy, asks@),
                };
                let seen = ExchangeView { time, books: self.books.put(instrument, book), ..self };
                seen.touch_all(seen.active_orders(instrument), book, queue)
            },
            MockMarketEventKind::Trade { price, quantity } => {
                let seen = ExchangeView {
                    time,
                    last_trades: self.last_trades.put(instrument, price),
                    ..self
                };
                match seen.trade_all(seen.active_orders(instrument), price, quantity, queue) {
                    None => None,
                    Some((fills, _)) => Some(fills),
                }
            },
        }
    }
}

impl Fills {
    /// What a public trade, of which so much is left, does to one more active order.
    pub open spec fn trade_one<Q: QueueModel>(
        self,
        order: Order<Seq<char>, Open<Seq<char>>>,
        trade_price: Decimal,
        left: Decimal,
        queue: Q,
    ) -> Option<(Fills, Decimal)> {
        if left.units() <= 0 {
            Some((self, left))
        } else {
            match remaining_quantity(order) {
                None => None,
                Some(remaining) => {
                    let quantity = queue.traded(
                        left,
                        remaining,
                        order.side,
                        order.price,
                        trade_price,
                    );
                    if quantity.units() > 0 {
                        match (
                            left.minus(quantity),
                            self.exchange.fill_resting(order, quantity, order.price),
                        ) {
                            (Some(left), Some(filled)) => Some((self.then_filled(filled), left)),
                            _ => None,
                        }
                    } else {
                        Some((self, left))
                    }
                },
            }
        }
    }
}

/// Replacing a balance where the ones before are of other assets.
proof fn lemma_with_first_replaced(
    balances: Seq<AssetBalance<Seq<char>>>,
    asset: Seq<char>,
    balance: AssetBalance<Seq<char>>,
    position: int,
)
    requires
        0 <= position <= balances.len(),
        forall|i: int| 0 <= i < position ==> (#[trigger] balances[i]).asset != asset,
        position < balances.len() ==> balances[position].asset == asset,
    ensures
        with_first_replaced(balances, asset, balance) == (if position < balances.len() {
            balances.update(position, balance)
        } else {
            balances
        }),
    decreases balances.len(),
{
    if balances.len() > 0 && position > 0 {
        assert(balances[0].asset != asset);
        lemma_with_first_replaced(balances.skip(1), asset, balance, position - 1);
        let rest = with_first_replaced(balances.skip(1), asset, balance);
        if position < balances.len() {
            assert(seq![balances[0]] + rest =~= balances.update(position, balance));
        } else {
            assert(seq![balances[0]] + rest =~= balances);
        }
    }
}

/// Puts the balance in the place of the first one of the asset.
fn replace_first(
    balances: &mut Vec<AssetBalance<String>>,
    asset: &String,
    balance: AssetBalance<String>,
)
    ensures
        views(final(balances)@) == with_first_replaced(views(old(balances)@), asset@, balance@),
{
    let ghost before = views(balances@);
    let mut position: usize = 0;
    while position < balances.len() && balances[position].asset != *asset
        invariant
            position <= balances.len(),
            before == views(balances@),
            forall|i: int| 0 <= i < position ==> (#[trigger] before[i]).asset != asset@,
        decreases balances.len() - position,
    {
        position = position + 1;
    }
    proof {
        lemma_with_first_replaced(before, asset@, balance@, position as int);
    }
    if position < balances.len() {
        balances[position] = balance;
        assert(views(balances@) =~= before.update(position as int, balance@));
    }
}

/// The order in the state, as the client is told about it.
fn order_notice(
    order: &Order<String, Open<String>>,
    state: OrderState<String>,
) -> (result: Snapshot<Order<String, OrderState<String>>>)
    ensures
        result@ == order@.with_state(state@),
{
    Snapshot(
        Order {
            key: order.key.clone(),
            side: order.side,
            price: order.price,
            quantity: order.quantity,
            kind: order.kind,
            time_in_force: order.time_in_force,
            state,
        },
    )
}

/// An order as the client is told about it, in the way contracts write it.
pub open spec fn notice_view(notice: Option<Snapshot<Order<String, OrderState<String>>>>) -> Option<
    Order<Seq<char>, OrderState<Seq<char>>>,
> {
    match notice {
        Some(notice) => Some(notice@),
        None => None,
    }
}

/// The outcome of a fill, in the way contracts write it.
pub open spec fn filled(
    exchange: ExchangeView,
    notifications: Option<OpenOrderNotifications>,
) -> Filled {
    Filled { exchange, notifications: notifications_view(notifications) }
}

impl<L: LatencyModel, Q: QueueModel> MockExchange<L, Q> {
    /// Records the trade of a fill and tells the client: `None` where the sequence of ids is
    /// used up.
    fn announce_fill(
        &mut self,
        order: &Order<String, Open<String>>,
        deal: &Settlement<String>,
        quantity: Decimal,
        price: Decimal,
        balances: Vec<AssetBalance<String>>,
        notice: Option<Snapshot<Order<String, OrderState<String>>>>,
    ) -> (result: Option<Option<OpenOrderNotifications>>)
        ensures
            final(self).same_models(*old(self)),
            ({
                let outcome = old(self)@.announce(
                    old(self)@.account,
                    order@,
                    deal@,
                    quantity,
                    price,
                    views(balances@),
                    notice_view(notice),
                );
                match result {
                    Some(notifications) => outcome == Some(filled(final(self)@, notifications)),
                    None => outcome is None,
                }
            }),
            old(self)@.account.funded() ==> final(self)@.account.funded(),
            final(self)@.fees_percent == old(self)@.fees_percent,
    {
        let mut balances = balances;
        match self.account.balance(deal.debit_asset.as_str()) {
            Some(balance) => replace_first(&mut balances, &deal.debit_asset, balance.clone()),
            None => {},
        }
        let id = match self.order_id_sequence_fetch_add() {
            Some(id) => id,
            None => return None,
        };
        let trade = Trade {
            id,
            order_id: order.state.id.clone(),
            instrument: order.key.instrument.clone(),
            strategy: order.key.strategy.clone(),
            time_exchange: self.time_exchange_latest,
            side: order.side,
            price,
            quantity,
            fees: AssetFees { fees: deal.fees },
        };
        self.account.ack_trade(trade.clone());
        Some(
            Some(
                OpenOrderNotifications {
                    balances: snapshots(balances),
                    trade: Some(trade),
                    order: notice,
                },
            ),
        )
    }

    /// Counts a fill whose balances are changed: `None` where a number is out of range.
    fn count_resting_fill(
        &mut self,
        order: &Order<String, Open<String>>,
        deal: &Settlement<String>,
        quantity: Decimal,
        price: Decimal,
        balances: Vec<AssetBalance<String>>,
    ) -> (result: Option<Option<OpenOrderNotifications>>)
        ensures
            final(self).same_models(*old(self)),
            ({
                let outcome = old(self)@.count_fill(
                    old(self)@.account,
                    order@,
                    deal@,
                    quantity,
                    price,
                    views(balances@),
                );
                match result {
                    Some(notifications) => outcome == Some(filled(final(self)@, notifications)),
                    None => outcome is None,
                }
            }),
            old(self)@.account.funded() && bearable(old(self)@.fees_percent) && order.price.units()
                >= 0 ==> final(self)@.account.funded(),
            final(self)@.fees_percent == old(self)@.fees_percent,
    {
        let time_exchange = self.time_exchange_latest;
        let cid = order.key.cid.as_str();
        let filled_quantity = match order.state.filled_quantity.abs().checked_add(&quantity) {
            Some(filled_quantity) => filled_quantity,
            None => return None,
        };
        let remaining = match order.quantity.abs().checked_sub(&filled_quantity) {
            Some(remaining) => remaining,
            None => return None,
        };
        match self.account.open_order_mut(cid) {
            Some(open) => {
                open.state.filled_quantity = filled_quantity;
            },
            None => {},
        }
        if !remaining.is_positive() {
            let notice = match self.account.remove_filled_order(cid) {
                Some(removed) => Some(
                    order_notice(&removed, OrderState::Inactive(InactiveOrderState::FullyFilled)),
                ),
                None => None,
            };
            return self.announce_fill(order, deal, quantity, price, balances, notice);
        }
        let notice = match self.account.open_order(cid) {
            Some(open) => Some(
                order_notice(open, OrderState::Active(ActiveOrderState::Open(open.state.clone()))),
            ),
            None => None,
        };
        let amount = match order_reservation(
            order.side,
            &remaining,
            &order.price,
            &self.fees_percent,
        ) {
            Some(amount) => amount,
            None => return None,
        };
        match self.account.try_reserve_balance(
            cid,
            deal.debit_asset.as_str(),
            amount,
            time_exchange,
        ) {
            None => None,
            Some(Err(_)) => Some(None),
            Some(Ok(())) => self.announce_fill(order, deal, quantity, price, balances, notice),
        }
    }

    /// Fills an active order: `None` where a number is out of range, and nothing is then said of
    /// the exchange.
    #[verifier::rlimit(30)]
    fn fill_resting_order(
        &mut self,
        order: &Order<String, Open<String>>,
        quantity: Decimal,
        price: Decimal,
    ) -> (result: Option<Option<OpenOrderNotifications>>)
        ensures
            final(self).same_models(*old(self)),
            match result {
                Some(notifications) => old(self)@.fill_resting(order@, quantity, price) == Some(
                    filled(final(self)@, notifications),
                ),
                None => old(self)@.fill_resting(order@, quantity, price) is None,
            },
            old(self)@.account.funded() && bearable(old(self)@.fees_percent) && order.price.units()
                >= 0 ==> final(self)@.account.funded(),
            final(self)@.fees_percent == old(self)@.fees_percent,
    {
        let time_exchange = self.time_exchange_latest;
        let cid = order.key.cid.as_str();
        let instrument = match self.instruments.get(order.key.instrument.as_str()) {
            Some(instrument) => instrument,
            None => return Some(None),
        };
        let value = match quantity.checked_mul(&price) {
            Some(value) => value,
            None => return None,
        };
        let deal = match settle_deal(order.side, instrument, quantity, value, &self.fees_percent) {
            Some(deal) => deal,
            None => return None,
        };
        let reserved = match self.account.reservation(cid) {
            Some(reservation) => Some((reservation.0.clone(), reservation.1)),
            None => None,
        };
        if !self.account.try_release_reservation(cid, time_exchange) {
            return None;
        }
        match self.account.try_apply_fill_balances(
            deal.debit_asset.as_str(),
            deal.debit_amount,
            deal.credit_asset.as_str(),
            deal.credit_amount,
            time_exchange,
        ) {
            None => None,
            Some(Err(_)) => match reserved {
                Some((asset, amount)) => match self.account.try_reserve_balance(
                    cid,
                    asset.as_str(),
                    amount,
                    time_exchange,
                ) {
                    Some(_) => Some(None),
                    None => None,
                },
                None => Some(None),
            },
            Some(Ok(balances)) => self.count_resting_fill(order, &deal, quantity, price, balances),
        }
    }

    /// The active orders for the instrument.
    fn active_orders_of(&self, instrument: &String) -> (result: Vec<Order<String, Open<String>>>)
        ensures
            views(result@) == self@.active_orders(instrument@),
            self@.account.orders_open.consistent(),
    {
        let ghost pred = for_instrument(instrument@);
        let orders = self.account.orders_open();
        let ghost all = views(orders@);
        let mut result: Vec<Order<String, Open<String>>> = Vec::new();
        let mut next: usize = 0;
        assert(all.take(0) =~= Seq::empty());
        assert(views(result@) =~= all.take(0).filter(pred));
        while next < orders.len()
            invariant
                next <= orders.len(),
                all == views(orders@),
                pred == for_instrument(instrument@),
                views(result@) == all.take(next as int).filter(pred),
            decreases orders.len() - next,
        {
            let order = orders[next];
            proof {
                assert(all.take(next + 1) =~= all.take(next as int).push(order@));
                Seq::lemma_filter_push(all.take(next as int), order@, pred);
            }
            if order.key.instrument == *instrument {
                let ghost before = result@;
                result.push(order.clone());
                assert(views(result@) =~= views(before).push(order@));
            }
            next = next + 1;
        }
        assert(all.take(next as int) =~= all);
        result
    }

    /// Fills active orders from a book: `None` where a number is out of range, and nothing is
    /// then said of the exchange.
    fn fill_resting_orders(&mut self, instrument: &String, book: &MockOrderBook) -> (result: Option<
        Vec<OpenOrderNotifications>,
    >)
        ensures
            final(self).same_models(*old(self)),
            ({
                let outcome = old(self)@.touch_all(
                    old(self)@.active_orders(instrument@),
                    book@,
                    old(self).queue_model,
                );
                match result {
                    Some(notifications) => outcome == Some(
                        Fills { exchange: final(self)@, notifications: views(notifications@) },
                    ),
                    None => outcome is None,
                }
            }),
            never_touched(old(self).queue_model) ==> final(self)@ == old(self)@ && (
            result matches Some(notifications) ==> notifications@.len() == 0),
            old(self)@.account.funded() && bearable(old(self)@.fees_percent)
                ==> final(self)@.account.funded(),
    {
        let orders = self.active_orders_of(instrument);
        let ghost start = self@;
        let ghost all = views(orders@);
        let ghost queue = self.queue_model;
        let mut result: Vec<OpenOrderNotifications> = Vec::new();
        let mut next: usize = 0;
        proof {
            assert(all.take(0) =~= Seq::empty());
            assert(views(result@) =~= Seq::empty());
            assert(all.take(orders.len() as int) =~= all);
            if start.account.funded() {
                lemma_fairly_priced(start, instrument@);
            }
        }
        while next < orders.len()
            invariant
                next <= orders.len(),
                all == views(orders@),
                all.take(orders.len() as int) == all,
                self.same_models(*old(self)),
                queue == self.queue_model,
                start == old(self)@,
                never_touched(queue) ==> self@ == start && result@.len() == 0,
                all == start.active_orders(instrument@),
                self@.fees_percent == start.fees_percent,
                start.account.funded() && bearable(start.fees_percent) ==> self@.account.funded(),
                start.account.funded() ==> fairly_priced(all),
                start.touch_all(all.take(next as int), book@, queue) == Some(
                    Fills { exchange: self@, notifications: views(result@) },
                ),
            decreases orders.len() - next,
        {
            let order = &orders[next];
            proof {
                assert(all.take(next + 1).drop_last() =~= all.take(next as int));
                assert(all.take(next + 1).last() == order@);
                assert(all[next as int] == order@);
                if start.touch_all(all.take(next + 1), book@, queue) is None {
                    lemma_touch_all_prefix(start, all, book@, queue, next + 1);
                }
            }
            let remaining = match order_remaining(order) {
                Some(remaining) => remaining,
                None => return None,
            };
            if remaining.is_positive() {
                match book.try_walk(order.side, remaining, Some(order.price), &self.queue_model) {
                    None => return None,
                    Some(None) => {},
                    Some(Some((quantity, price))) => match self.fill_resting_order(
                        order,
                        quantity,
                        price,
                    ) {
                        None => return None,
                        Some(None) => {},
                        Some(Some(notifications)) => {
                            let ghost before = result@;
                            result.push(notifications);
                            assert(views(result@) =~= views(before).push(notifications@));
                        },
                    },
                }
            }
            next = next + 1;
        }
        Some(result)
    }

    /// Fills active orders from a public trade: `None` where a number is out of range, and
    /// nothing is then said of the exchange.
    fn fill_resting_orders_on_trade(
        &mut self,
        instrument: &String,
        trade_price: Decimal,
        trade_quantity: Decimal,
    ) -> (result: Option<Vec<OpenOrderNotifications>>)
        ensures
            final(self).same_models(*old(self)),
            ({
                let outcome = old(self)@.trade_all(
                    old(self)@.active_orders(instrument@),
                    trade_price,
                    trade_quantity,
                    old(self).queue_model,
                );
                match result {
                    Some(notifications) => (outcome matches Some((fills, _)) && fills == (Fills {
                        exchange: final(self)@,
                        notifications: views(notifications@),
                    })),
                    None => outcome is None,
                }
            }),
            old(self)@.account.funded() && bearable(old(self)@.fees_percent)
                ==> final(self)@.account.funded(),
    {
        let orders = self.active_orders_of(instrument);
        let ghost start = self@;
        let ghost all = views(orders@);
        let ghost queue = self.queue_model;
        let mut result: Vec<OpenOrderNotifications> = Vec::new();
        let mut left = trade_quantity;
        let mut next: usize = 0;
        proof {
            assert(all.take(0) =~= Seq::empty());
            assert(views(result@) =~= Seq::empty());
            assert(all.take(orders.len() as int) =~= all);
            if start.account.funded() {
                lemma_fairly_priced(start, instrument@);
            }
        }
        while next < orders.len()
            invariant
                next <= orders.len(),
                all == views(orders@),
                all.take(orders.len() as int) == all,
                self.same_models(*old(self)),
                queue == self.queue_model,
                start == old(self)@,
                all == start.active_orders(instrument@),
                self@.fees_percent == start.fees_percent,
                start.account.funded() && bearable(start.fees_percent) ==> self@.account.funded(),
                start.account.funded() ==> fairly_priced(all),
                start.trade_all(all.take(next as int), trade_price, trade_quantity, queue) == Some(
                    (Fills { exchange: self@, notifications: views(result@) }, left),
                ),
            decreases orders.len() - next,
        {
            let order = &orders[next];
            proof {
                assert(all.take(next + 1).drop_last() =~= all.take(next as int));
                assert(all.take(next + 1).last() == order@);
                assert(all[next as int] == order@);
                if start.trade_all(all.take(next + 1), trade_price, trade_quantity, queue) is None {
                    lemma_trade_all_prefix(
                        start,
                        all,
                        trade_price,
                        trade_quantity,
                        queue,
                        next + 1,
                    );
                }
            }
            if left.is_positive() {
                let remaining = match order_remaining(order) {
                    Some(remaining) => remaining,
                    None => return None,
                };
                let quantity = self.queue_model.executable_trade_quantity(
                    left,
                    remaining,
                    order.side,
                    order.price,
                    trade_price,
                );
                if quantity.is_positive() {
                    left = match left.checked_sub(&quantity) {
                        Some(left) => left,
                        None => return None,
                    };
                    match self.fill_resting_order(order, quantity, order.price) {
                        None => return None,
                        Some(None) => {},
                        Some(Some(notifications)) => {
                            let ghost before = result@;
                            result.push(notifications);
                            assert(views(result@) =~= views(before).push(notifications@));
                        },
                    }
                }
            }
            next = next + 1;
        }
        Some(result)
    }

    /// Takes a market event and fills the active orders that it reaches: `None` where a number
    /// is out of range, and nothing is then said of the exchange.
    pub fn apply_market_event(&mut self, event: MockMarketEvent) -> (result: Option<
        Vec<OpenOrderNotifications>,
    >)
        ensures
            final(self).same_models(*old(self)),
            ({
                let outcome = old(self)@.market(
                    event.instrument@,
                    event.time_exchange,
                    event.kind,
                    old(self).queue_model,
                );
                match result {
                    Some(notifications) => outcome == Some(
                        Fills { exchange: final(self)@, notifications: views(notifications@) },
                    ),
                    None => outcome is None,
                }
            }),
            event.kind is OrderBook && never_touched(old(self).queue_model) ==> final(self)@.account
                == old(self)@.account && (result matches Some(notifications)
                ==> notifications@.len() == 0),
            old(self)@.account.funded() && bearable(old(self)@.fees_percent)
                ==> final(self)@.account.funded(),
    {
        self.time_exchange_latest = event.time_exchange;
        match event.kind {
            MockMarketEventKind::OrderBook { bids, asks } => {
                let mut book = MockOrderBook::default();
                book.update(MockMarketEventKind::OrderBook { bids, asks });
                self.market_books.insert(event.instrument.clone(), book.clone());
                self.fill_resting_orders(&event.instrument, &book)
            },
            MockMarketEventKind::Trade { price, quantity } => {
                self.last_trades.insert(event.instrument.clone(), price);
                self.fill_resting_orders_on_trade(&event.instrument, price, quantity)
            },
        }
    }
}

/// No order has a price below zero.
spec fn fairly_priced(orders: Seq<Order<Seq<char>, Open<Seq<char>>>>) -> bool {
    forall|i: int| 0 <= i < orders.len() ==> (#[trigger] orders[i]).price.units() >= 0
}

/// The active orders of a funded account have no price below zero.
proof fn lemma_fairly_priced(exchange: ExchangeView, instrument: Seq<char>)
    requires
        exchange.account.orders_open.consistent(),
        exchange.account.funded(),
    ensures
        fairly_priced(exchange.active_orders(instrument)),
{
    let all = exchange.account.orders_open.values();
    let orders = exchange.active_orders(instrument);
    assert forall|i: int| 0 <= i < orders.len() implies (#[trigger] orders[i]).price.units()
        >= 0 by {
        assert(orders.contains(orders[i]));
        all.lemma_filter_contains_rev(for_instrument(instrument), orders[i]);
        let j = choose|j: int| 0 <= j < all.len() && all[j] == orders[i];
        let key = exchange.account.orders_open.keys[j];
        assert(exchange.account.orders_open.keys.contains(key));
        assert(exchange.account.orders_open.map.contains_key(key));
    }
}

/// A number out of range at one order stops all orders behind it.
proof fn lemma_touch_all_prefix<Q: QueueModel>(
    exchange: ExchangeView,
    orders: Seq<Order<Seq<char>, Open<Seq<char>>>>,
    book: BookView,
    queue: Q,
    count: int,
)
    requires
        0 <= count <= orders.len(),
        exchange.touch_all(orders.take(count), book, queue) is None,
    ensures
        exchange.touch_all(orders, book, queue) is None,
    decreases orders.len(),
{
    if count == orders.len() {
        assert(orders.take(count) =~= orders);
    } else {
        assert(orders.drop_last().take(count) =~= orders.take(count));
        lemma_touch_all_prefix(exchange, orders.drop_last(), book, queue, count);
    }
}

/// A number out of range at one order stops all orders behind it.
proof fn lemma_trade_all_prefix<Q: QueueModel>(
    exchange: ExchangeView,
    orders: Seq<Order<Seq<char>, Open<Seq<char>>>>,
    trade_price: Decimal,
    trade_quantity: Decimal,
    queue: Q,
    count: int,
)
    requires
        0 <= count <= orders.len(),
        exchange.trade_all(orders.take(count), trade_price, trade_quantity, queue) is None,
    ensures
        exchange.trade_all(orders, trade_price, trade_quantity, queue) is None,
    decreases orders.len(),
{
    if count == orders.len() {
        assert(orders.take(count) =~= orders);
    } else {
        assert(orders.drop_last().take(count) =~= orders.take(count));
        lemma_trade_all_prefix(
            exchange,
            orders.drop_last(),
            trade_price,
            trade_quantity,
            queue,
            count,
        );
    }
}

} // verus!
