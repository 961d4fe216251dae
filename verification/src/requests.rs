//! The requests that a paper exchange takes, its answers, and the events that it sends.

use crate::account::{bearable, AccountSnapshot, AccountView, AssetBalance, SnapshotView, Trade};
use crate::exchange::{
    ExchangeView, MockExchange, NotificationsView, OpenOrderNotifications, Snapshot,
};
use crate::matching::opened;
use crate::instrument::ExchangeId;
use crate::market::{LatencyModel, QueueModel};
use crate::names::views;
use crate::order::{
    cancel_response_view, Open, Order, OrderRequestCancel, OrderRequestOpen, OrderResponseCancel,
    OrderResponseOpen, OrderState,
};
use crate::snapshot::{all_orders, grouped};
use crate::time::Timestamp;
use vstd::prelude::*;

verus! {

/// What is asked of the exchange.
#[derive(Debug, PartialEq, Eq)]
pub enum MockExchangeRequestKind {
    FetchAccountSnapshot,
    FetchBalances { assets: Vec<String> },
    FetchOrdersOpen { instruments: Vec<String> },
    FetchTrades { time_since: Timestamp },
    CancelOrder(OrderRequestCancel),
    OpenOrder(OrderRequestOpen),
}

/// A request, and when the client sent it.
#[derive(Debug, PartialEq, Eq)]
pub struct MockExchangeRequest {
    pub time_request: Timestamp,
    pub kind: MockExchangeRequestKind,
}

/// An answer of the exchange.
#[derive(Debug, PartialEq, Eq)]
pub enum MockExchangeResponse {
    AccountSnapshot(AccountSnapshot),
    Balances(Vec<AssetBalance<String>>),
    OrdersOpen(Vec<Order<String, Open<String>>>),
    Trades(Vec<Trade<String>>),
    Cancelled(OrderResponseCancel),
    Opened(OrderResponseOpen),
}

/// The balances of the account for the assets.
pub open spec fn balances_for(account: AccountView, assets: Seq<Seq<char>>) -> Seq<
    AssetBalance<Seq<char>>,
> {
    account.balances.values().filter(
        |balance: AssetBalance<Seq<char>>| assets.contains(balance.asset),
    )
}

/// The active orders of the account for the instruments.
pub open spec fn orders_for(account: AccountView, instruments: Seq<Seq<char>>) -> Seq<
    Order<Seq<char>, Open<Seq<char>>>,
> {
    account.orders_open.values().filter(
        |order: Order<Seq<char>, Open<Seq<char>>>| instruments.contains(order.key.instrument),
    )
}

/// The trades of the account from the given time on.
pub open spec fn trades_since(account: AccountView, time_since: Timestamp) -> Seq<
    Trade<Seq<char>>,
> {
    account.trades.filter(|trade: Trade<Seq<char>>| !trade.time_exchange.before(time_since))
}

/// The exchange with the trade of an execution recorded.
pub open spec fn with_trade_recorded(
    exchange: ExchangeView,
    notifications: Option<NotificationsView>,
) -> ExchangeView {
    match notifications {
        Some(notifications) => match notifications.trade {
            Some(trade) => exchange.with_account(
                AccountView {
                    trades: exchange.account.trades.push(trade),
                    ..exchange.account
                },
            ),
            None => exchange,
        },
        None => exchange,
    }
}

/// Whether one of the names is the name.
fn contains_name(names: &Vec<String>, name: &String) -> (result: bool)
    ensures
        result == views(names@).contains(name@),
{
    let mut next: usize = 0;
    while next < names.len()
        invariant
            next <= names.len(),
            forall|i: int| 0 <= i < next ==> views(names@)[i] != name@,
        decreases names.len() - next,
    {
        if names[next] == *name {
            assert(views(names@)[next as int] == name@);
            return true;
        }
        next = next + 1;
    }
    false
}

/// What a request does to the exchange that it reaches, where it is answered.
pub open spec fn answers(
    before: ExchangeView,
    kind: MockExchangeRequestKind,
    after: ExchangeView,
    response: MockExchangeResponse,
    notifications: Option<OpenOrderNotifications>,
) -> bool {
    match kind {
        MockExchangeRequestKind::FetchAccountSnapshot => after == before && notifications is None
            && (response matches MockExchangeResponse::AccountSnapshot(snapshot)
            && snapshot.exchange == before.exchange && snapshot@.balances
            == before.account.balances.values() && grouped(
            snapshot@.instruments,
            all_orders(before.account),
        )),
        MockExchangeRequestKind::FetchBalances { assets } => after == before && notifications
            is None && (response matches MockExchangeResponse::Balances(balances) && views(
            balances@,
        ) == balances_for(before.account, views(assets@))),
        MockExchangeRequestKind::FetchOrdersOpen { instruments } => after == before && notifications
            is None && (response matches MockExchangeResponse::OrdersOpen(orders) && views(orders@)
            == orders_for(before.account, views(instruments@))),
        MockExchangeRequestKind::FetchTrades { time_since } => after == before && notifications
            is None && (response matches MockExchangeResponse::Trades(trades) && views(trades@)
            == trades_since(before.account, time_since)),
        MockExchangeRequestKind::CancelOrder(request) => notifications is None && (
        response matches MockExchangeResponse::Cancelled(answer) && before.cancel(request@) == Some(
            (after, cancel_response_view(answer)),
        )),
        MockExchangeRequestKind::OpenOrder(request) => (
        response matches MockExchangeResponse::Opened(answer) && before.open(request@) is Some && {
            let outcome = before.open(request@)->0;
            outcome == opened(outcome.exchange, (answer, notifications)) && after
                == with_trade_recorded(outcome.exchange, outcome.notifications)
        }),
    }
}

/// A number goes out of range in a request, so that it has no answer.
pub open spec fn out_of_range(before: ExchangeView, kind: MockExchangeRequestKind) -> bool {
    match kind {
        MockExchangeRequestKind::CancelOrder(request) => before.cancel(request@) is None,
        MockExchangeRequestKind::OpenOrder(request) => before.open(request@) is None,
        _ => false,
    }
}

impl<L: LatencyModel, Q: QueueModel> MockExchange<L, Q> {
    /// The balances for the assets.
    fn fetch_balances(&self, assets: &Vec<String>) -> (result: Vec<AssetBalance<String>>)
        ensures
            views(result@) == balances_for(self@.account, views(assets@)),
    {
        let ghost pred = |balance: AssetBalance<Seq<char>>| views(assets@).contains(balance.asset);
        let balances = self.account.balances();
        let ghost all = views(balances@);
        let mut result: Vec<AssetBalance<String>> = Vec::new();
        let mut next: usize = 0;
        assert(views(result@) =~= all.take(0).filter(pred)) by {
            assert(all.take(0) =~= Seq::empty());
        }
        while next < balances.len()
            invariant
                next <= balances.len(),
                all == views(balances@),
                pred == (|balance: AssetBalance<Seq<char>>| views(assets@).contains(balance.asset)),
                views(result@) == all.take(next as int).filter(pred),
            decreases balances.len() - next,
        {
            let balance = balances[next];
            proof {
                assert(all.take(next + 1) =~= all.take(next as int).push(balance@));
                Seq::lemma_filter_push(all.take(next as int), balance@, pred);
            }
            if contains_name(assets, &balance.asset) {
                let ghost before = result@;
                result.push(balance.clone());
                assert(views(result@) =~= views(before).push(balance@));
            }
            next = next + 1;
        }
        assert(all.take(next as int) =~= all);
        result
    }

    /// The active orders for the instruments.
    fn fetch_orders_open(&self, instruments: &Vec<String>) -> (result: Vec<
        Order<String, Open<String>>,
    >)
        ensures
            views(result@) == orders_for(self@.account, views(instruments@)),
    {
        let ghost pred = |order: Order<Seq<char>, Open<Seq<char>>>|
            views(instruments@).contains(order.key.instrument);
        let orders = self.account.orders_open();
        let ghost all = views(orders@);
        let mut result: Vec<Order<String, Open<String>>> = Vec::new();
        let mut next: usize = 0;
        assert(views(result@) =~= all.take(0).filter(pred)) by {
            assert(all.take(0) =~= Seq::empty());
        }
        while next < orders.len()
            invariant
                next <= orders.len(),
                all == views(orders@),
                pred == (|order: Order<Seq<char>, Open<Seq<char>>>|
                    views(instruments@).contains(order.key.instrument)),
                views(result@) == all.take(next as int).filter(pred),
            decreases orders.len() - next,
        {
            let order = orders[next];
            proof {
                assert(all.take(next + 1) =~= all.take(next as int).push(order@));
                Seq::lemma_filter_push(all.take(next as int), order@, pred);
            }
            if contains_name(instruments, &order.key.instrument) {
                let ghost before = result@;
                result.push(order.clone());
                assert(views(result@) =~= views(before).push(order@));
            }
            next = next + 1;
        }
        assert(all.take(next as int) =~= all);
        result
    }

    /// The trades from the given time on.
    fn fetch_trades(&self, time_since: Timestamp) -> (result: Vec<Trade<String>>)
        ensures
            views(result@) == trades_since(self@.account, time_since),
    {
        let trades = self.account.trades(time_since);
        let mut result: Vec<Trade<String>> = Vec::new();
        let mut next: usize = 0;
        while next < trades.len()
            invariant
                next <= trades.len(),
                result@.len() == next,
                forall|i: int| 0 <= i < next ==> (#[trigger] result@[i])@ == trades@[i]@,
            decreases trades.len() - next,
        {
            result.push(trades[next].clone());
            next = next + 1;
        }
        assert(views(result@) =~= views(trades@));
        result
    }

    /// Takes a request: its answer, and what the client is told about an execution. `None` where
    /// a number is out of range, and nothing is then said of the exchange.
    pub fn handle_request(&mut self, request: MockExchangeRequest) -> (result: Option<
        (MockExchangeResponse, Option<OpenOrderNotifications>),
    >)
        ensures
            final(self).same_models(*old(self)),
            ({
                let before = old(self)@.at_request(
                    request.time_request,
                    old(self).latency_model.order_delay(old(self).latency_ms),
                );
                match result {
                    Some((response, notifications)) => answers(
                        before,
                        request.kind,
                        final(self)@,
                        response,
                        notifications,
                    ),
                    None => out_of_range(before, request.kind),
                }
            }),
            old(self)@.account.funded() && bearable(old(self)@.fees_percent)
                ==> final(self)@.account.funded(),
    {
        self.update_time_exchange(request.time_request);
        match request.kind {
            MockExchangeRequestKind::FetchAccountSnapshot => Some(
                (MockExchangeResponse::AccountSnapshot(self.account_snapshot()), None),
            ),
            MockExchangeRequestKind::FetchBalances { assets } => Some(
                (MockExchangeResponse::Balances(self.fetch_balances(&assets)), None),
            ),
            MockExchangeRequestKind::FetchOrdersOpen { instruments } => Some(
                (MockExchangeResponse::OrdersOpen(self.fetch_orders_open(&instruments)), None),
            ),
            MockExchangeRequestKind::FetchTrades { time_since } => Some(
                (MockExchangeResponse::Trades(self.fetch_trades(time_since)), None),
            ),
            MockExchangeRequestKind::CancelOrder(request) => match self.try_cancel_order(
                request,
            ) {
                Some(response) => Some((MockExchangeResponse::Cancelled(response), None)),
                None => None,
            },
            MockExchangeRequestKind::OpenOrder(request) => match self.place_order(&request) {
                Some((response, notifications)) => {
                    match &notifications {
                        Some(sent) => match &sent.trade {
                            Some(trade) => self.account.ack_trade(trade.clone()),
                            None => {},
                        },
                        None => {},
                    }
                    Some((MockExchangeResponse::Opened(response), notifications))
                },
                None => None,
            },
        }
    }
}

/// What happened in an account.
#[derive(Debug, PartialEq, Eq)]
pub enum AccountEventKind {
    Snapshot(AccountSnapshot),
    BalanceSnapshot(Snapshot<AssetBalance<String>>),
    OrderSnapshot(Snapshot<Order<String, OrderState<String>>>),
    Trade(Trade<String>),
}

/// What happened in an account, in the way contracts write it.
pub enum EventKindView {
    Snapshot(SnapshotView),
    Balance(AssetBalance<Seq<char>>),
    Order(Order<Seq<char>, OrderState<Seq<char>>>),
    Trade(Trade<Seq<char>>),
}

impl View for AccountEventKind {
    type V = EventKindView;

    open spec fn view(&self) -> EventKindView {
        match self {
            AccountEventKind::Snapshot(snapshot) => EventKindView::Snapshot(snapshot@),
            AccountEventKind::BalanceSnapshot(balance) => EventKindView::Balance(balance@),
            AccountEventKind::OrderSnapshot(order) => EventKindView::Order(order@),
            AccountEventKind::Trade(trade) => EventKindView::Trade(trade@),
        }
    }
}

/// What happened in an account on an exchange.
#[derive(Debug, PartialEq, Eq)]
pub struct AccountEvent {
    pub exchange: ExchangeId,
    pub kind: AccountEventKind,
}

/// What happened in an account on an exchange, in the way contracts write it.
pub struct EventView {
    pub exchange: ExchangeId,
    pub kind: EventKindView,
}

impl View for AccountEvent {
    type V = EventView;

    open spec fn view(&self) -> EventView {
        EventView { exchange: self.exchange, kind: self.kind@ }
    }
}

/// The events that tell of an execution: the balances, then the trade, then the order.
pub open spec fn events_of(exchange: ExchangeId, notifications: NotificationsView) -> Seq<
    EventView,
> {
    notifications.balances.map_values(
        |balance: AssetBalance<Seq<char>>|
            EventView { exchange, kind: EventKindView::Balance(balance) },
    ) + (match notifications.trade {
        Some(trade) => seq![EventView { exchange, kind: EventKindView::Trade(trade) }],
        None => Seq::empty(),
    }) + (match notifications.order {
        Some(order) => seq![EventView { exchange, kind: EventKindView::Order(order) }],
        None => Seq::empty(),
    })
}

/// The events that tell of an execution: the balances, then the trade, then the order.
pub fn notification_events(exchange: ExchangeId, notifications: OpenOrderNotifications) -> (result:
    Vec<AccountEvent>)
    ensures
        views(result@) == events_of(exchange, notifications@),
{
    let mut result: Vec<AccountEvent> = Vec::new();
    let mut next: usize = 0;
    while next < notifications.balances.len()
        invariant
            next <= notifications.balances.len(),
            result@.len() == next,
            forall|i: int|
                0 <= i < next ==> (#[trigger] result@[i])@ == (EventView {
                    exchange,
                    kind: EventKindView::Balance(notifications.balances@[i]@),
                }),
        decreases notifications.balances.len() - next,
    {
        let balance = notifications.balances[next].0.clone();
        result.push(
            AccountEvent { exchange, kind: AccountEventKind::BalanceSnapshot(Snapshot(balance)) },
        );
        next = next + 1;
    }
    match notifications.trade {
        Some(trade) => result.push(
            AccountEvent { exchange, kind: AccountEventKind::Trade(trade) },
        ),
        None => {},
    }
    match notifications.order {
        Some(order) => result.push(
            AccountEvent { exchange, kind: AccountEventKind::OrderSnapshot(order) },
        ),
        None => {},
    }
    assert(views(result@) =~= events_of(exchange, notifications@));
    result
}

} // verus!
