//! Orders, what is asked of an exchange about them, and how a request can fail.

use crate::decimal::Decimal;
use crate::instrument::{ExchangeId, Side};
use crate::time::Timestamp;
use vstd::prelude::*;

verus! {

/// How an order is priced.
#[derive(Debug, Clone, Copy, PartialEq, Eq, Hash, Structural)]
pub enum OrderKind {
    Market,
    Limit,
}

/// How long an order stays active.
#[derive(Debug, Clone, Copy, PartialEq, Eq, Hash, Structural)]
pub enum TimeInForce {
    GoodUntilCancelled { post_only: bool },
    GoodUntilEndOfDay,
    FillOrKill,
    ImmediateOrCancel,
}

/// What identifies an order to the client.
#[derive(Debug, PartialEq, Eq)]
pub struct OrderKey<N> {
    pub exchange: ExchangeId,
    pub instrument: N,
    pub strategy: N,
    pub cid: N,
}

impl View for OrderKey<String> {
    type V = OrderKey<Seq<char>>;

    open spec fn view(&self) -> OrderKey<Seq<char>> {
        OrderKey {
            exchange: self.exchange,
            instrument: self.instrument@,
            strategy: self.strategy@,
            cid: self.cid@,
        }
    }
}

impl Clone for OrderKey<String> {
    fn clone(&self) -> (result: Self)
        ensures
            result == *self,
    {
        OrderKey {
            exchange: self.exchange,
            instrument: self.instrument.clone(),
            strategy: self.strategy.clone(),
            cid: self.cid.clone(),
        }
    }
}

/// An order in the state `S`.
#[derive(Debug, PartialEq, Eq)]
pub struct Order<N, S> {
    pub key: OrderKey<N>,
    pub side: Side,
    pub price: Decimal,
    pub quantity: Decimal,
    pub kind: OrderKind,
    pub time_in_force: TimeInForce,
    pub state: S,
}

impl<N, S> Order<N, S> {
    /// The order in another state.
    pub open spec fn with_state<T>(self, state: T) -> Order<N, T> {
        Order {
            key: self.key,
            side: self.side,
            price: self.price,
            quantity: self.quantity,
            kind: self.kind,
            time_in_force: self.time_in_force,
            state,
        }
    }
}

impl<S: View> View for Order<String, S> {
    type V = Order<Seq<char>, S::V>;

    open spec fn view(&self) -> Order<Seq<char>, S::V> {
        Order {
            key: self.key@,
            side: self.side,
            price: self.price,
            quantity: self.quantity,
            kind: self.kind,
            time_in_force: self.time_in_force,
            state: self.state@,
        }
    }
}

/// An order that is active on the exchange.
#[derive(Debug, PartialEq, Eq)]
pub struct Open<N> {
    pub id: N,
    pub time_exchange: Timestamp,
    pub filled_quantity: Decimal,
}

impl View for Open<String> {
    type V = Open<Seq<char>>;

    open spec fn view(&self) -> Open<Seq<char>> {
        Open {
            id: self.id@,
            time_exchange: self.time_exchange,
            filled_quantity: self.filled_quantity,
        }
    }
}

impl Clone for Open<String> {
    fn clone(&self) -> (result: Self)
        ensures
            result == *self,
    {
        Open {
            id: self.id.clone(),
            time_exchange: self.time_exchange,
            filled_quantity: self.filled_quantity,
        }
    }
}

impl Clone for Order<String, Open<String>> {
    fn clone(&self) -> (result: Self)
        ensures
            result == *self,
    {
        Order {
            key: self.key.clone(),
            side: self.side,
            price: self.price,
            quantity: self.quantity,
            kind: self.kind,
            time_in_force: self.time_in_force,
            state: self.state.clone(),
        }
    }
}

/// An order that was cancelled.
#[derive(Debug, PartialEq, Eq)]
pub struct Cancelled<N> {
    pub id: N,
    pub time_exchange: Timestamp,
}

impl View for Cancelled<String> {
    type V = Cancelled<Seq<char>>;

    open spec fn view(&self) -> Cancelled<Seq<char>> {
        Cancelled { id: self.id@, time_exchange: self.time_exchange }
    }
}

impl Clone for Cancelled<String> {
    fn clone(&self) -> (result: Self)
        ensures
            result == *self,
    {
        Cancelled { id: self.id.clone(), time_exchange: self.time_exchange }
    }
}

impl Clone for Order<String, Cancelled<String>> {
    fn clone(&self) -> (result: Self)
        ensures
            result == *self,
    {
        Order {
            key: self.key.clone(),
            side: self.side,
            price: self.price,
            quantity: self.quantity,
            kind: self.kind,
            time_in_force: self.time_in_force,
            state: self.state.clone(),
        }
    }
}

/// A refusal by the exchange. The first name is what the refusal is about, the last a message.
#[derive(Debug, PartialEq, Eq)]
pub enum ApiError<N> {
    RateLimit,
    AssetInvalid(N, N),
    InstrumentInvalid(N, N),
    BalanceInsufficient(N, N),
    OrderRejected(N),
}

impl View for ApiError<String> {
    type V = ApiError<Seq<char>>;

    open spec fn view(&self) -> ApiError<Seq<char>> {
        match self {
            ApiError::RateLimit => ApiError::RateLimit,
            ApiError::AssetInvalid(name, message) => ApiError::AssetInvalid(name@, message@),
            ApiError::InstrumentInvalid(name, message) => ApiError::InstrumentInvalid(
                name@,
                message@,
            ),
            ApiError::BalanceInsufficient(name, message) => ApiError::BalanceInsufficient(
                name@,
                message@,
            ),
            ApiError::OrderRejected(message) => ApiError::OrderRejected(message@),
        }
    }
}

/// A failure to reach the exchange.
#[derive(Debug, PartialEq, Eq)]
pub enum ConnectivityError<N> {
    Timeout,
    Socket(N),
}

impl View for ConnectivityError<String> {
    type V = ConnectivityError<Seq<char>>;

    open spec fn view(&self) -> ConnectivityError<Seq<char>> {
        match self {
            ConnectivityError::Timeout => ConnectivityError::Timeout,
            ConnectivityError::Socket(message) => ConnectivityError::Socket(message@),
        }
    }
}

/// Why a request about an order failed.
#[derive(Debug, PartialEq, Eq)]
pub enum OrderError<N> {
    Connectivity(ConnectivityError<N>),
    Rejected(ApiError<N>),
}

impl View for OrderError<String> {
    type V = OrderError<Seq<char>>;

    open spec fn view(&self) -> OrderError<Seq<char>> {
        match self {
            OrderError::Connectivity(error) => OrderError::Connectivity(error@),
            OrderError::Rejected(error) => OrderError::Rejected(error@),
        }
    }
}

/// An order as the exchange reports it while it is active.
#[derive(Debug, PartialEq, Eq)]
pub enum ActiveOrderState<N> {
    OpenInFlight,
    Open(Open<N>),
    CancelInFlight,
}

/// An order as the exchange reports it once it is no longer active.
#[derive(Debug, PartialEq, Eq)]
pub enum InactiveOrderState<N> {
    Cancelled(Cancelled<N>),
    FullyFilled,
    OpenFailed(OrderError<N>),
    Expired,
}

/// An order as the exchange reports it.
#[derive(Debug, PartialEq, Eq)]
pub enum OrderState<N> {
    Active(ActiveOrderState<N>),
    Inactive(InactiveOrderState<N>),
}

impl View for ActiveOrderState<String> {
    type V = ActiveOrderState<Seq<char>>;

    open spec fn view(&self) -> ActiveOrderState<Seq<char>> {
        match self {
            ActiveOrderState::OpenInFlight => ActiveOrderState::OpenInFlight,
            ActiveOrderState::Open(open) => ActiveOrderState::Open(open@),
            ActiveOrderState::CancelInFlight => ActiveOrderState::CancelInFlight,
        }
    }
}

impl View for InactiveOrderState<String> {
    type V = InactiveOrderState<Seq<char>>;

    open spec fn view(&self) -> InactiveOrderState<Seq<char>> {
        match self {
            InactiveOrderState::Cancelled(cancelled) => InactiveOrderState::Cancelled(cancelled@),
            InactiveOrderState::FullyFilled => InactiveOrderState::FullyFilled,
            InactiveOrderState::OpenFailed(error) => InactiveOrderState::OpenFailed(error@),
            InactiveOrderState::Expired => InactiveOrderState::Expired,
        }
    }
}

impl View for OrderState<String> {
    type V = OrderState<Seq<char>>;

    open spec fn view(&self) -> OrderState<Seq<char>> {
        match self {
            OrderState::Active(state) => OrderState::Active(state@),
            OrderState::Inactive(state) => OrderState::Inactive(state@),
        }
    }
}

/// What a new order asks for.
#[derive(Debug, Clone, Copy, PartialEq, Eq)]
pub struct RequestOpen {
    pub side: Side,
    pub price: Decimal,
    pub quantity: Decimal,
    pub kind: OrderKind,
    pub time_in_force: TimeInForce,
}

impl View for RequestOpen {
    type V = RequestOpen;

    open spec fn view(&self) -> RequestOpen {
        *self
    }
}

/// What a cancellation asks for: where an id is given, it has to be that of the order.
#[derive(Debug, PartialEq, Eq)]
pub struct RequestCancel<N> {
    pub id: Option<N>,
}

impl View for RequestCancel<String> {
    type V = RequestCancel<Seq<char>>;

    open spec fn view(&self) -> RequestCancel<Seq<char>> {
        RequestCancel { id: text_view(self.id) }
    }
}

/// The characters of a text, where there is one.
pub open spec fn text_view(text: Option<String>) -> Option<Seq<char>> {
    match text {
        Some(text) => Some(text@),
        None => None,
    }
}

/// Something about the order with the given key.
#[derive(Debug, PartialEq, Eq)]
pub struct OrderEvent<N, S> {
    pub key: OrderKey<N>,
    pub state: S,
}

impl<S: View> View for OrderEvent<String, S> {
    type V = OrderEvent<Seq<char>, S::V>;

    open spec fn view(&self) -> OrderEvent<Seq<char>, S::V> {
        OrderEvent { key: self.key@, state: self.state@ }
    }
}

impl Clone for OrderEvent<String, RequestOpen> {
    fn clone(&self) -> (result: Self)
        ensures
            result == *self,
    {
        OrderEvent { key: self.key.clone(), state: self.state }
    }
}

/// A request for a new order.
pub type OrderRequestOpen = OrderEvent<String, RequestOpen>;

/// A request to cancel an order.
pub type OrderRequestCancel = OrderEvent<String, RequestCancel<String>>;

/// The answer to a cancellation.
pub type OrderResponseCancel = OrderEvent<String, Result<Cancelled<String>, OrderError<String>>>;

/// The answer to a request for a new order.
pub type OrderResponseOpen = Order<String, Result<Open<String>, OrderError<String>>>;

/// A successful state or an error, in the way contracts write them.
pub open spec fn open_result_view(state: Result<Open<String>, OrderError<String>>) -> Result<
    Open<Seq<char>>,
    OrderError<Seq<char>>,
> {
    match state {
        Ok(open) => Ok(open@),
        Err(error) => Err(error@),
    }
}

/// A successful cancellation or an error, in the way contracts write them.
pub open spec fn cancel_result_view(
    state: Result<Cancelled<String>, OrderError<String>>,
) -> Result<Cancelled<Seq<char>>, OrderError<Seq<char>>> {
    match state {
        Ok(cancelled) => Ok(cancelled@),
        Err(error) => Err(error@),
    }
}

/// The answer to a request for a new order, in the way contracts write it.
pub open spec fn open_response_view(response: OrderResponseOpen) -> Order<
    Seq<char>,
    Result<Open<Seq<char>>, OrderError<Seq<char>>>,
> {
    Order {
        key: response.key@,
        side: response.side,
        price: response.price,
        quantity: response.quantity,
        kind: response.kind,
        time_in_force: response.time_in_force,
        state: open_result_view(response.state),
    }
}

/// The answer to a cancellation, in the way contracts write it.
pub open spec fn cancel_response_view(response: OrderResponseCancel) -> OrderEvent<
    Seq<char>,
    Result<Cancelled<Seq<char>>, OrderError<Seq<char>>>,
> {
    OrderEvent { key: response.key@, state: cancel_result_view(response.state) }
}

} // verus!
