//! The stream of account events of the Binance spot exchange, as a sequence of decisions.
//!
//! The caller performs an action and hands back what came of it; the stream says what to do next.
//! After each connection a snapshot of the account comes before anything else.

use crate::account::{AccountSnapshot, SnapshotView};
use crate::binance::{stream_url, BinanceSpotConfig, ConfigView};
use crate::binance_messages::{
    order_in_report, parse_user_data_order, parse_user_data_trade, trade_in_report,
};
use crate::instrument::ExchangeId;
use crate::json::{document_view, json_document, Json, JsonView};
use crate::names::views;
use crate::requests::{AccountEvent, AccountEventKind, EventKindView, EventView};
use crate::time::{Instant, Timestamp};
use std::collections::VecDeque;
use vstd::prelude::*;

verus! {

/// How long a key of the stream is used before it is renewed.
pub const KEEPALIVE_NANOS: u128 = 1_800_000_000_000;

/// What the caller is to do.
#[derive(Debug, PartialEq, Eq)]
pub enum StreamAction {
    /// Hand an event to the engine.
    Emit(AccountEvent),
    /// Ask the exchange for a key of the stream.
    FetchListenKey,
    /// Connect to the stream at the address.
    Connect(String),
    /// Ask the exchange for a snapshot of the account.
    FetchSnapshot,
    /// Renew the key.
    Keepalive(String),
    /// Wait for the next message.
    Receive,
    /// Drop the connection, if there is one, and wait a second.
    Backoff,
}

/// What came of an action.
#[derive(Debug, PartialEq, Eq)]
pub enum StreamInput {
    /// The event was taken, the second is over, or nothing was done yet.
    Resume,
    /// The key, if the exchange gave one.
    ListenKey(Option<String>),
    /// Whether the connection stands.
    Connected(bool),
    /// The snapshot, if the exchange gave one.
    Snapshot(Option<AccountSnapshot>),
    /// The key was renewed, or not.
    KeptAlive,
    /// A message, with its text where it is one.
    Message(Option<String>),
    /// The connection is lost.
    Lost,
}

/// What the stream waits for.
#[derive(Debug, Clone, Copy, PartialEq, Eq, Structural)]
pub enum Phase {
    /// There is no connection.
    Down,
    /// The connection stands, and the account has not been seen since.
    Joining,
    /// The connection stands.
    Up,
}

/// The stream of account events.
pub struct AccountStream {
    phase: Phase,
    listen_key: Option<String>,
    last_keepalive: Instant,
    pending: VecDeque<AccountEvent>,
}

/// The stream of account events, in the way contracts write it.
#[verifier::ext_equal]
pub struct StreamView {
    pub phase: Phase,
    pub listen_key: Option<Seq<char>>,
    pub last_keepalive: Instant,
    pub pending: Seq<EventView>,
}

/// What the caller is to do, in the way contracts write it.
pub enum ActionView {
    Emit(EventView),
    FetchListenKey,
    Connect(Seq<char>),
    FetchSnapshot,
    Keepalive(Seq<char>),
    Receive,
    Backoff,
}

/// What came of an action, in the way contracts write it. A message is written as the document
/// that it is.
pub enum InputView {
    Resume,
    ListenKey(Option<Seq<char>>),
    Connected(bool),
    Snapshot(Option<SnapshotView>),
    KeptAlive,
    Message(Option<JsonView>),
    Lost,
}

impl View for AccountStream {
    type V = StreamView;

    closed spec fn view(&self) -> StreamView {
        StreamView {
            phase: self.phase,
            listen_key: crate::order::text_view(self.listen_key),
            last_keepalive: self.last_keepalive,
            pending: views(self.pending@),
        }
    }
}

impl View for StreamAction {
    type V = ActionView;

    open spec fn view(&self) -> ActionView {
        match self {
            StreamAction::Emit(event) => ActionView::Emit(event@),
            StreamAction::FetchListenKey => ActionView::FetchListenKey,
            StreamAction::Connect(address) => ActionView::Connect(address@),
            StreamAction::FetchSnapshot => ActionView::FetchSnapshot,
            StreamAction::Keepalive(key) => ActionView::Keepalive(key@),
            StreamAction::Receive => ActionView::Receive,
            StreamAction::Backoff => ActionView::Backoff,
        }
    }
}

impl View for StreamInput {
    type V = InputView;

    open spec fn view(&self) -> InputView {
        match self {
            StreamInput::Resume => InputView::Resume,
            StreamInput::ListenKey(key) => InputView::ListenKey(crate::order::text_view(*key)),
            StreamInput::Connected(connected) => InputView::Connected(*connected),
            StreamInput::Snapshot(snapshot) => InputView::Snapshot(
                match snapshot {
                    Some(snapshot) => Some(snapshot@),
                    None => None,
                },
            ),
            StreamInput::KeptAlive => InputView::KeptAlive,
            StreamInput::Message(text) => InputView::Message(
                match text {
                    Some(text) => json_document(text@),
                    None => None,
                },
            ),
            StreamInput::Lost => InputView::Lost,
        }
    }
}

/// An event of the exchange.
pub open spec fn exchange_event(kind: EventKindView) -> EventView {
    EventView { exchange: ExchangeId::BinanceSpot, kind }
}

/// The events that a document holds: the trade first, then the order.
pub open spec fn events_in(document: Option<JsonView>, now_millis: i64, now: Timestamp) -> Seq<
    EventView,
> {
    match document {
        None => Seq::empty(),
        Some(document) => {
            let trade = match trade_in_report(document, now_millis) {
                Some(trade) => seq![exchange_event(EventKindView::Trade(trade))],
                None => Seq::empty(),
            };
            match order_in_report(document, now_millis, now) {
                Some(order) => trade.push(exchange_event(EventKindView::Order(order))),
                None => trade,
            }
        },
    }
}

impl StreamView {
    /// A stream that is not connected yet.
    pub open spec fn fresh(now: Instant) -> StreamView {
        StreamView {
            phase: Phase::Down,
            listen_key: None,
            last_keepalive: now,
            pending: Seq::empty(),
        }
    }

    /// The stream without a connection.
    pub open spec fn dropped(self) -> StreamView {
        StreamView { phase: Phase::Down, listen_key: None, ..self }
    }

    /// What is next where nothing is outstanding: an event that waits, the connection, the
    /// account, the renewal of the key, or the next message.
    pub open spec fn idle(self, clock: Instant) -> (StreamView, ActionView) {
        if self.pending.len() > 0 {
            (
                StreamView { pending: self.pending.skip(1), ..self },
                ActionView::Emit(self.pending[0]),
            )
        } else if self.phase is Down {
            (self, ActionView::FetchListenKey)
        } else if self.phase is Joining {
            (self, ActionView::FetchSnapshot)
        } else if clock.since(self.last_keepalive).nanos >= KEEPALIVE_NANOS {
            match self.listen_key {
                Some(key) => (self, ActionView::Keepalive(key)),
                None => (
                    StreamView { last_keepalive: clock, ..self },
                    ActionView::Receive,
                ),
            }
        } else {
            (self, ActionView::Receive)
        }
    }

    /// What is next, after something came of an action.
    pub open spec fn step(
        self,
        input: InputView,
        config: ConfigView,
        clock: Instant,
        now_millis: i64,
        now: Timestamp,
    ) -> (StreamView, ActionView) {
        match input {
            InputView::Resume => self.idle(clock),
            InputView::ListenKey(Some(key)) => (
                StreamView { listen_key: Some(key), ..self },
                ActionView::Connect(config.stream_base_url + "/ws/"@ + key),
            ),
            InputView::ListenKey(None) => (self.dropped(), ActionView::Backoff),
            InputView::Connected(true) => StreamView {
                phase: Phase::Joining,
                last_keepalive: clock,
                ..self
            }.idle(clock),
            InputView::Connected(false) => (self.dropped(), ActionView::Backoff),
            InputView::Snapshot(Some(snapshot)) => (
                StreamView {
                    phase: if self.phase is Joining {
                        Phase::Up
                    } else {
                        self.phase
                    },
                    ..self
                },
                ActionView::Emit(exchange_event(EventKindView::Snapshot(snapshot))),
            ),
            InputView::Snapshot(None) => if self.phase is Joining {
                (self.dropped(), ActionView::Backoff)
            } else {
                self.idle(clock)
            },
            InputView::KeptAlive => StreamView { last_keepalive: clock, ..self }.idle(clock),
            InputView::Message(document) => {
                let events = events_in(document, now_millis, now);
                let heard = StreamView { pending: self.pending + events, ..self };
                if heard.pending.len() > 0 {
                    heard.idle(clock)
                } else {
                    (heard, ActionView::FetchSnapshot)
                }
            },
            InputView::Lost => (self.dropped(), ActionView::Backoff),
        }
    }
}

impl AccountStream {
    /// A stream that is not connected yet.
    pub fn new(now: Instant) -> (result: AccountStream)
        ensures
            result@ == StreamView::fresh(now),
    {
        let result = AccountStream {
            phase: Phase::Down,
            listen_key: None,
            last_keepalive: now,
            pending: VecDeque::new(),
        };
        assert(result@.pending =~= Seq::empty());
        result
    }

    /// Forgets the connection.
    fn drop_connection(&mut self)
        ensures
            final(self)@ == old(self)@.dropped(),
    {
        self.phase = Phase::Down;
        self.listen_key = None;
    }

    /// What is next where nothing is outstanding.
    fn when_idle(&mut self, clock: Instant) -> (result: StreamAction)
        ensures
            (final(self)@, result@) == old(self)@.idle(clock),
    {
        match self.pending.pop_front() {
            Some(event) => {
                assert(self@.pending =~= old(self)@.pending.skip(1));
                return StreamAction::Emit(event);
            },
            None => {},
        }
        assert(self@.pending =~= old(self)@.pending);
        match self.phase {
            Phase::Down => StreamAction::FetchListenKey,
            Phase::Joining => StreamAction::FetchSnapshot,
            Phase::Up => {
                if clock.duration_since(self.last_keepalive).nanos >= KEEPALIVE_NANOS {
                    match &self.listen_key {
                        Some(key) => return StreamAction::Keepalive(key.clone()),
                        None => {
                            self.last_keepalive = clock;
                        },
                    }
                }
                StreamAction::Receive
            },
        }
    }

    /// Adds the events that a message holds to those that wait.
    fn hear(&mut self, document: Option<Json>, now_millis: i64, now: Timestamp)
        ensures
            final(self)@ == (StreamView {
                pending: old(self)@.pending + events_in(document_view(document), now_millis, now),
                ..old(self)@
            }),
    {
        let ghost before = self@.pending;
        match document {
            Some(document) => {
                match parse_user_data_trade(&document, now_millis) {
                    Some(event) => self.pending.push_back(event),
                    None => {},
                }
                match parse_user_data_order(&document, now_millis, now) {
                    Some(event) => self.pending.push_back(event),
                    None => {},
                }
            },
            None => {},
        }
        assert(self@.pending =~= before + events_in(document_view(document), now_millis, now));
    }

    /// What is next, after something came of an action.
    pub fn next(
        &mut self,
        input: StreamInput,
        config: &BinanceSpotConfig,
        clock: Instant,
        now_millis: i64,
        now: Timestamp,
    ) -> (result: StreamAction)
        ensures
            (final(self)@, result@) == old(self)@.step(input@, config@, clock, now_millis, now),
    {
        match input {
            StreamInput::Resume => self.when_idle(clock),
            StreamInput::ListenKey(Some(key)) => {
                let address = stream_url(config, key.as_str());
                self.listen_key = Some(key);
                StreamAction::Connect(address)
            },
            StreamInput::Connected(true) => {
                self.phase = Phase::Joining;
                self.last_keepalive = clock;
                self.when_idle(clock)
            },
            StreamInput::Snapshot(Some(snapshot)) => {
                if self.phase == Phase::Joining {
                    self.phase = Phase::Up;
                }
                StreamAction::Emit(
                    AccountEvent {
                        exchange: ExchangeId::BinanceSpot,
                        kind: AccountEventKind::Snapshot(snapshot),
                    },
                )
            },
            StreamInput::Snapshot(None) => {
                if self.phase == Phase::Joining {
                    self.drop_connection();
                    StreamAction::Backoff
                } else {
                    self.when_idle(clock)
                }
            },
            StreamInput::KeptAlive => {
                self.last_keepalive = clock;
                self.when_idle(clock)
            },
            StreamInput::Message(text) => {
                let document = match &text {
                    Some(text) => Json::parse(text.as_str()),
                    None => None,
                };
                self.hear(document, now_millis, now);
                assert(views(self.pending@).len() == self.pending@.len());
                if self.pending.len() > 0 {
                    self.when_idle(clock)
                } else {
                    StreamAction::FetchSnapshot
                }
            },
            StreamInput::ListenKey(None) | StreamInput::Connected(false) | StreamInput::Lost => {
                self.drop_connection();
                StreamAction::Backoff
            },
        }
    }
}

/// After a connection nothing is received before the account has been seen: as long as it has
/// not, the stream asks for a snapshot or hands out what waited, and a snapshot that fails drops
/// the connection.
pub proof fn law_account_is_seen_before_messages(
    stream: StreamView,
    input: InputView,
    config: ConfigView,
    clock: Instant,
    now_millis: i64,
    now: Timestamp,
)
    requires
        stream.phase is Joining || input == InputView::Connected(true),
        !(input is Message),
        input is ListenKey ==> stream.phase is Down,
    ensures
        !(stream.step(input, config, clock, now_millis, now).1 is Receive),
        stream.step(input, config, clock, now_millis, now).0.phase is Up ==> (input matches
            InputView::Snapshot(Some(snapshot)) && stream.step(
            input,
            config,
            clock,
            now_millis,
            now,
        ).1 == ActionView::Emit(exchange_event(EventKindView::Snapshot(snapshot)))),
{
}

/// A lost connection is forgotten with its key, and the events that wait are kept.
pub proof fn law_lost_connection_is_made_anew(
    stream: StreamView,
    config: ConfigView,
    clock: Instant,
    now_millis: i64,
    now: Timestamp,
)
    requires
        stream.pending.len() == 0,
    ensures
        ({
            let (lost, action) = stream.step(InputView::Lost, config, clock, now_millis, now);
            &&& action is Backoff
            &&& lost.listen_key is None
            &&& lost.pending == stream.pending
            &&& lost.step(InputView::Resume, config, clock, now_millis, now).1 is FetchListenKey
        }),
{
}

/// A message that holds no event is reconciled through a snapshot, and one that holds events
/// loses none: they wait in order and are handed out one after the other.
pub proof fn law_messages_lose_no_event(
    stream: StreamView,
    document: Option<JsonView>,
    config: ConfigView,
    clock: Instant,
    now_millis: i64,
    now: Timestamp,
)
    ensures
        ({
            let events = stream.pending + events_in(document, now_millis, now);
            let (after, action) = stream.step(
                InputView::Message(document),
                config,
                clock,
                now_millis,
                now,
            );
            if events.len() == 0 {
                action is FetchSnapshot && after.pending == events
            } else {
                action == ActionView::Emit(events[0]) && after.pending == events.skip(1)
            }
        }),
{
}

/// Of the events that a document holds, the trade comes before the order, each is told as an event
/// of the exchange, and there are no others.
pub proof fn law_trade_is_told_before_order(document: JsonView, now_millis: i64, now: Timestamp)
    ensures
        ({
            let events = events_in(Some(document), now_millis, now);
            match (
                trade_in_report(document, now_millis),
                order_in_report(document, now_millis, now),
            ) {
                (Some(trade), Some(order)) => events.len() == 2 && events[0].kind
                    == EventKindView::Trade(trade) && events[1].kind == EventKindView::Order(order),
                (Some(trade), None) => events.len() == 1 && events[0].kind == EventKindView::Trade(
                    trade,
                ),
                (None, Some(order)) => events.len() == 1 && events[0].kind == EventKindView::Order(
                    order,
                ),
                (None, None) => events.len() == 0,
            }
        }),
        forall|i: int|
            0 <= i < events_in(Some(document), now_millis, now).len() ==> (#[trigger] events_in(
                Some(document),
                now_millis,
                now,
            )[i]).exchange == ExchangeId::BinanceSpot,
        events_in(None, now_millis, now).len() == 0,
{
}

/// A key leads to a connection at the address made of the base and the key, and is kept until the
/// connection is dropped. Without a key, and where the connection fails or is lost, there is no
/// connection and no key, and the caller is told to wait. No event that waits is lost on the way.
pub proof fn law_connection_is_made_with_the_key(
    stream: StreamView,
    key: Seq<char>,
    config: ConfigView,
    clock: Instant,
    now_millis: i64,
    now: Timestamp,
)
    ensures
        ({
            let (keyed, action) = stream.step(
                InputView::ListenKey(Some(key)),
                config,
                clock,
                now_millis,
                now,
            );
            &&& keyed.listen_key == Some(key)
            &&& keyed.phase == stream.phase
            &&& keyed.pending == stream.pending
            &&& keyed.last_keepalive == stream.last_keepalive
            &&& action == ActionView::Connect(config.stream_base_url + "/ws/"@ + key)
        }),
        forall|input: InputView|
            input == InputView::ListenKey(None) || input == InputView::Connected(false) || input
                is Lost || (stream.phase is Joining && input == InputView::Snapshot(None)) ==> ({
                let (after, action) = #[trigger] stream.step(
                    input,
                    config,
                    clock,
                    now_millis,
                    now,
                );
                &&& after.phase is Down
                &&& after.listen_key is None
                &&& after.pending == stream.pending
                &&& action is Backoff
            }),
{
}

/// A key is renewed where it has been in use for thirty minutes, and no sooner: then the stream asks
/// for the renewal of the key that it holds, and once that is done counts anew.
pub proof fn law_key_is_renewed_after_thirty_minutes(
    stream: StreamView,
    key: Seq<char>,
    config: ConfigView,
    clock: Instant,
    now_millis: i64,
    now: Timestamp,
)
    requires
        stream.phase is Up,
        stream.pending.len() == 0,
        stream.listen_key == Some(key),
        stream.last_keepalive.nanos <= clock.nanos,
    ensures
        ({
            let (after, action) = stream.step(InputView::Resume, config, clock, now_millis, now);
            &&& after == stream
            &&& action == ActionView::Keepalive(key) <==> clock.nanos - stream.last_keepalive.nanos
                >= 30 * 60 * 1_000_000_000
            &&& action is Receive <==> clock.nanos - stream.last_keepalive.nanos < 30 * 60
                * 1_000_000_000
        }),
        ({
            let (after, action) = stream.step(InputView::KeptAlive, config, clock, now_millis, now);
            after.last_keepalive == clock && action is Receive && after.listen_key == Some(key)
        }),
{
}

/// Events that wait are handed out first, in the order in which they came.
pub proof fn law_waiting_events_come_first(
    stream: StreamView,
    config: ConfigView,
    clock: Instant,
    now_millis: i64,
    now: Timestamp,
)
    requires
        stream.pending.len() > 0,
    ensures
        ({
            let (after, action) = stream.step(InputView::Resume, config, clock, now_millis, now);
            &&& action == ActionView::Emit(stream.pending[0])
            &&& stream.pending == seq![stream.pending[0]] + after.pending
            &&& after.phase == stream.phase
            &&& after.listen_key == stream.listen_key
        }),
{
    assert(stream.pending =~= seq![stream.pending[0]] + stream.pending.skip(1));
}

/// A connection that stands is joined: the account is asked for before any message, and the key
/// counts as renewed.
pub proof fn law_connection_asks_for_the_account(
    stream: StreamView,
    config: ConfigView,
    clock: Instant,
    now_millis: i64,
    now: Timestamp,
)
    requires
        stream.pending.len() == 0,
    ensures
        ({
            let (after, action) = stream.step(
                InputView::Connected(true),
                config,
                clock,
                now_millis,
                now,
            );
            &&& after.phase is Joining
            &&& after.last_keepalive == clock
            &&& after.listen_key == stream.listen_key
            &&& after.pending == stream.pending
            &&& action is FetchSnapshot
        }),
{
}

/// A snapshot is told as it came, as an event of the exchange, and the stream is then up where it
/// was joining.
pub proof fn law_snapshot_is_told(
    stream: StreamView,
    snapshot: SnapshotView,
    config: ConfigView,
    clock: Instant,
    now_millis: i64,
    now: Timestamp,
)
    ensures
        ({
            let (after, action) = stream.step(
                InputView::Snapshot(Some(snapshot)),
                config,
                clock,
                now_millis,
                now,
            );
            &&& action matches ActionView::Emit(event) && event.exchange == ExchangeId::BinanceSpot
                && event.kind == EventKindView::Snapshot(snapshot)
            &&& after.phase is Up <==> stream.phase is Up || stream.phase is Joining
            &&& after.phase is Down <==> stream.phase is Down
            &&& after.pending == stream.pending
            &&& after.listen_key == stream.listen_key
            &&& after.last_keepalive == stream.last_keepalive
        }),
{
}

} // verus!
