//! The paper exchange: it takes requests, matches orders against the market and keeps the
//! account.

use crate::account::{
    bearable, paying_asset, AccountSnapshot, AccountState, AccountView, AssetBalance, Trade,
};
use crate::decimal::Decimal;
use crate::instrument::{ExchangeId, Instrument};
use crate::market::{BookView, FixedLatency, LatencyModel, MockOrderBook, NoQueue, QueueModel};
use crate::matching::{blames, opened};
use crate::names::{views, NameMap, Named, Replicate};
use crate::order::{
    cancel_response_view, Cancelled, Open, Order, OrderError, OrderEvent, OrderRequestCancel,
    OrderRequestOpen, OrderResponseCancel, OrderResponseOpen, OrderState, RequestCancel,
    RequestOpen,
};
use crate::time::{
    nanos_since_epoch, ordinary, time_at, time_of_parts, Timestamp, NANOS_PER_MILLISECOND,
};
use vstd::pervasive::unreached;
use vstd::prelude::*;

verus! {

/// A value as it stands after a change.
#[derive(Debug, PartialEq, Eq)]
pub struct Snapshot<T>(pub T);

impl<T: View> View for Snapshot<T> {
    type V = T::V;

    open spec fn view(&self) -> T::V {
        self.0@
    }
}

/// What the client is told about an execution.
#[derive(Debug, PartialEq, Eq)]
pub struct OpenOrderNotifications {
    pub balances: Vec<Snapshot<AssetBalance<String>>>,
    pub trade: Option<Trade<String>>,
    pub order: Option<Snapshot<Order<String, OrderState<String>>>>,
}

/// What the client is told about an execution, in the way contracts write it.
pub struct NotificationsView {
    pub balances: Seq<AssetBalance<Seq<char>>>,
    pub trade: Option<Trade<Seq<char>>>,
    pub order: Option<Order<Seq<char>, OrderState<Seq<char>>>>,
}

impl View for OpenOrderNotifications {
    type V = NotificationsView;

    open spec fn view(&self) -> NotificationsView {
        NotificationsView {
            balances: views(self.balances@),
            trade: match self.trade {
                Some(trade) => Some(trade@),
                None => None,
            },
            order: match self.order {
                Some(order) => Some(order@),
                None => None,
            },
        }
    }
}

/// Notifications, where there are any, in the way contracts write them.
pub open spec fn notifications_view(
    notifications: Option<OpenOrderNotifications>,
) -> Option<NotificationsView> {
    match notifications {
        Some(notifications) => Some(notifications@),
        None => None,
    }
}

/// The paper exchange.
pub struct MockExchange<L, Q> {
    pub exchange: ExchangeId,
    pub latency_ms: u64,
    pub latency_model: L,
    pub queue_model: Q,
    pub fees_percent: Decimal,
    pub instruments: NameMap<Instrument<String>>,
    pub account: AccountState,
    pub order_sequence: u64,
    pub time_exchange_latest: Timestamp,
    pub market_books: NameMap<MockOrderBook>,
    pub last_trades: NameMap<Decimal>,
}

/// The paper exchange, in the way contracts write it.
pub struct ExchangeView {
    pub exchange: ExchangeId,
    pub latency_ms: u64,
    pub fees_percent: Decimal,
    pub instruments: Named<Instrument<Seq<char>>>,
    pub account: AccountView,
    pub order_sequence: u64,
    pub time: Timestamp,
    pub books: Named<BookView>,
    pub last_trades: Named<Decimal>,
}

impl<L, Q> View for MockExchange<L, Q> {
    type V = ExchangeView;

    open spec fn view(&self) -> ExchangeView {
        ExchangeView {
            exchange: self.exchange,
            latency_ms: self.latency_ms,
            fees_percent: self.fees_percent,
            instruments: self.instruments@,
            account: self.account@,
            order_sequence: self.order_sequence,
            time: self.time_exchange_latest,
            books: self.market_books@,
            last_trades: self.last_trades@,
        }
    }
}

/// An answer to a request for a new order, in the way contracts write it.
pub type OpenResponseView = Order<Seq<char>, Result<Open<Seq<char>>, OrderError<Seq<char>>>>;

/// A request for a new order, in the way contracts write it.
pub type OpenRequestView = OrderEvent<Seq<char>, RequestOpen>;

/// The outcome of a request for a new order: the exchange after it, the answer, and what the
/// client is told about an execution.
pub struct Opened {
    pub exchange: ExchangeView,
    pub response: OpenResponseView,
    pub notifications: Option<NotificationsView>,
}

/// How a paper exchange starts.
#[derive(Debug, PartialEq, Eq)]
pub struct MockExecutionConfig {
    pub mocked_exchange: ExchangeId,
    pub initial_state: AccountSnapshot,
    pub latency_ms: u64,
    pub fees_percent: Decimal,
}

impl MockExecutionConfig {
    /// No number goes out of range when what the orders of the initial state set aside is worked
    /// out.
    pub open spec fn restorable(self, instruments: Named<Instrument<Seq<char>>>) -> bool {
        AccountView::of_snapshot(self.initial_state@).restorable(instruments, self.fees_percent)
    }

    /// The exchange before its first request.
    pub open spec fn start(self, instruments: Named<Instrument<Seq<char>>>) -> ExchangeView {
        let epoch = Timestamp { secs: 0, nanos: 0 };
        ExchangeView {
            exchange: self.mocked_exchange,
            latency_ms: self.latency_ms,
            fees_percent: self.fees_percent,
            instruments,
            account: AccountView::of_snapshot(self.initial_state@).restored(
                instruments,
                self.fees_percent,
                epoch,
            ),
            order_sequence: 0,
            time: epoch,
            books: Named::none(),
            last_trades: Named::none(),
        }
    }

    /// Whether no number goes out of range when what the orders of the initial state set aside
    /// is worked out.
    fn is_restorable(&self, instruments: &NameMap<Instrument<String>>) -> (result: bool)
        ensures
            result == self.restorable(instruments@),
    {
        let mut account = AccountState::from_snapshot(&self.initial_state);
        account.try_restore_reservations(instruments, self.fees_percent, Timestamp::epoch())
    }
}

impl MockExchange<FixedLatency, NoQueue> {
    /// A paper exchange with the configured latency, which fills active orders on touch.
    pub fn new(config: MockExecutionConfig, instruments: NameMap<Instrument<String>>) -> (result:
        Self)
        requires
            config.restorable(instruments@),
        ensures
            result@ == config.start(instruments@),
    {
        MockExchange::new_with_latency_model(config, instruments, FixedLatency)
    }

    /// A paper exchange with the configured latency, which fills active orders on touch: `None`
    /// where a number is out of range.
    pub fn try_new(
        config: MockExecutionConfig,
        instruments: NameMap<Instrument<String>>,
    ) -> (result: Option<Self>)
        ensures
            match result {
                Some(exchange) => config.restorable(instruments@) && exchange@ == config.start(
                    instruments@,
                ),
                None => !config.restorable(instruments@),
            },
    {
        if config.is_restorable(&instruments) {
            Some(MockExchange::new(config, instruments))
        } else {
            None
        }
    }
}

impl<L: LatencyModel> MockExchange<L, NoQueue> {
    /// A paper exchange with the latency model, which fills active orders on touch.
    pub fn new_with_latency_model(
        config: MockExecutionConfig,
        instruments: NameMap<Instrument<String>>,
        latency_model: L,
    ) -> (result: Self)
        requires
            config.restorable(instruments@),
        ensures
            result@ == config.start(instruments@),
            result.latency_model == latency_model,
    {
        MockExchange::new_with_models(config, instruments, latency_model, NoQueue)
    }
}

impl<L: LatencyModel, Q: QueueModel> MockExchange<L, Q> {
    /// A paper exchange with the models.
    pub fn new_with_models(
        config: MockExecutionConfig,
        instruments: NameMap<Instrument<String>>,
        latency_model: L,
        queue_model: Q,
    ) -> (result: Self)
        requires
            config.restorable(instruments@),
        ensures
            result@ == config.start(instruments@),
            result.latency_model == latency_model,
            result.queue_model == queue_model,
    {
        let mut account = AccountState::from(config.initial_state);
        account.restore_reservations(&instruments, config.fees_percent, Timestamp::epoch());
        MockExchange {
            exchange: config.mocked_exchange,
            latency_ms: config.latency_ms,
            latency_model,
            queue_model,
            fees_percent: config.fees_percent,
            instruments,
            account,
            order_sequence: 0,
            time_exchange_latest: Timestamp::epoch(),
            market_books: NameMap::new(),
            last_trades: NameMap::new(),
        }
    }

    /// A paper exchange with the models: `None` where a number is out of range.
    pub fn try_new_with_models(
        config: MockExecutionConfig,
        instruments: NameMap<Instrument<String>>,
        latency_model: L,
        queue_model: Q,
    ) -> (result: Option<Self>)
        ensures
            match result {
                Some(exchange) => config.restorable(instruments@) && exchange@ == config.start(
                    instruments@,
                ) && exchange.latency_model == latency_model && exchange.queue_model == queue_model,
                None => !config.restorable(instruments@),
            },
    {
        if config.is_restorable(&instruments) {
            Some(MockExchange::new_with_models(config, instruments, latency_model, queue_model))
        } else {
            None
        }
    }

    /// How late market data reaches the exchange.
    pub fn effective_feed_latency_ms(&self) -> (result: u64)
        ensures
            result == self.latency_model.feed_delay(self.latency_ms),
    {
        self.latency_model.feed_delay_ms(self.latency_ms)
    }

    /// How late requests and their answers arrive.
    pub fn effective_order_latency_ms(&self) -> (result: u64)
        ensures
            result == self.latency_model.order_delay(self.latency_ms),
    {
        self.latency_model.order_delay_ms(self.latency_ms)
    }

    /// How late an answer or a notification arrives.
    pub fn effective_latency_ms(&self) -> (result: u64)
        ensures
            result == self.latency_model.order_delay(self.latency_ms),
    {
        self.effective_order_latency_ms()
    }

    /// Moves the time of the exchange to when a request arrives: half of the latency after it
    /// was sent.
    pub fn update_time_exchange(&mut self, time_request: Timestamp)
        ensures
            final(self).same_models(*old(self)),
            final(self)@ == old(self)@.at_request(
                time_request,
                old(self).latency_model.order_delay(old(self).latency_ms),
            ),
            old(self)@.account.funded() ==> final(self)@.account.funded(),
            ordinary(time_request) ==> final(self)@.time == ({
                let delay = old(self).latency_model.order_delay(old(self).latency_ms) / 2;
                match time_of_parts(
                    time_at(nanos_since_epoch(time_request) + delay * NANOS_PER_MILLISECOND),
                ) {
                    Some(time) => time,
                    None => time_request,
                }
            }),
    {
        let client_to_exchange_latency = self.effective_latency_ms() / 2;
        self.time_exchange_latest = match time_request.checked_add_millis(
            client_to_exchange_latency as i64,
        ) {
            Some(time) => time,
            None => time_request,
        };
        self.account.update_time_exchange(self.time_exchange_latest);
    }

    /// Takes a request for a new order: the answer, and what the client is told about an
    /// execution.
    pub fn open_order(&mut self, request: OrderRequestOpen) -> (result: (
        OrderResponseOpen,
        Option<OpenOrderNotifications>,
    ))
        requires
            old(self)@.open(request@) is Some,
        ensures
            final(self).same_models(*old(self)),
            old(self)@.open(request@) == Some(opened(final(self)@, result)),
            old(self)@.account.solvent() ==> final(self)@.account.solvent() && (result.0.state
                is Err ==> final(self)@.account == old(self)@.account),
            old(self)@.account.funded() && bearable(old(self)@.fees_percent)
                ==> final(self)@.account.funded(),
            old(self)@.account.solvent() && old(self)@.instruments.has(request@.key.instrument)
                ==> blames(
                result.0,
                paying_asset(
                    request@.state.side,
                    old(self)@.instruments.map[request@.key.instrument],
                ),
            ),
    {
        match self.place_order(&request) {
            Some(result) => result,
            None => unreached(),
        }
    }

    /// Takes a request for a new order, unless a number would go out of range: then nothing
    /// changes.
    pub fn try_open_order(&mut self, request: OrderRequestOpen) -> (result: Option<
        (OrderResponseOpen, Option<OpenOrderNotifications>),
    >)
        ensures
            final(self).same_models(*old(self)),
            match result {
                Some(result) => old(self)@.open(request@) == Some(opened(final(self)@, result)),
                None => old(self)@.open(request@) is None && final(self)@ == old(self)@,
            },
    {
        let ghost start = self@;
        let account = self.account.replicate();
        let order_sequence = self.order_sequence;
        let in_range = self.place_order(&request).is_some();
        self.account = account;
        self.order_sequence = order_sequence;
        assert(self@ == start);
        if in_range {
            Some(self.open_order(request))
        } else {
            None
        }
    }

    /// Takes a request to cancel an order.
    pub fn cancel_order(&mut self, request: OrderRequestCancel) -> (result: OrderResponseCancel)
        requires
            old(self)@.cancel(request@) is Some,
        ensures
            final(self).same_models(*old(self)),
            old(self)@.cancel(request@) == Some((final(self)@, cancel_response_view(result))),
            old(self)@.account.funded() ==> final(self)@.account.funded(),
    {
        let time_exchange = self.time_exchange_latest;
        let state = self.account.cancel_order(
            request.key.cid.as_str(),
            request.state.id.as_ref(),
            time_exchange,
        );
        OrderEvent { key: request.key, state }
    }

    /// Takes a request to cancel an order, unless a number would go out of range: then nothing
    /// changes.
    pub fn try_cancel_order(&mut self, request: OrderRequestCancel) -> (result: Option<
        OrderResponseCancel,
    >)
        ensures
            final(self).same_models(*old(self)),
            match result {
                Some(result) => old(self)@.cancel(request@) == Some(
                    (final(self)@, cancel_response_view(result)),
                ),
                None => old(self)@.cancel(request@) is None && final(self)@ == old(self)@,
            },
            old(self)@.account.funded() ==> final(self)@.account.funded(),
    {
        if self.account.can_cancel_order(
            request.key.cid.as_str(),
            request.state.id.as_ref(),
            self.time_exchange_latest,
        ) {
            Some(self.cancel_order(request))
        } else {
            None
        }
    }
}

/// A request to cancel an order, in the way contracts write it.
pub type CancelRequestView = OrderEvent<Seq<char>, RequestCancel<Seq<char>>>;

/// An answer to a cancellation, in the way contracts write it.
pub type CancelResponseView = OrderEvent<
    Seq<char>,
    Result<Cancelled<Seq<char>>, OrderError<Seq<char>>>,
>;

impl ExchangeView {
    /// The exchange when a request that was sent at the time arrives.
    pub open spec fn at_request(self, time_request: Timestamp, latency_ms: u64) -> ExchangeView {
        let time = match time_request.moved((latency_ms / 2) as i64) {
            Some(time) => time,
            None => time_request,
        };
        ExchangeView { time, account: self.account.stamped(time), ..self }
    }

    /// The outcome of a cancellation: the exchange after it, and the answer. `None` where a
    /// number is out of range.
    pub open spec fn cancel(self, request: CancelRequestView) -> Option<
        (ExchangeView, CancelResponseView),
    > {
        match self.account.cancel(request.key.cid, request.state.id, self.time) {
            None => None,
            Some((account, state)) => Some(
                (self.with_account(account), OrderEvent { key: request.key, state }),
            ),
        }
    }
}

} // verus!
