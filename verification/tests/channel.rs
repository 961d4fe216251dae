use barter::channel::{
    mpsc_bounded, mpsc_bounded_keyed, BoundedSendError, BoundedState, KeyOf, ObservationKey,
    OverflowPolicy, Received, Unkeyed, Unrecoverable,
};
use barter::latency::{LatencyHop, LatencySamples, MarketLatency, LATENCY_SAMPLE_CAPACITY};
use barter::sender::{
    mpsc_unbounded, Channel, ChannelState, ChannelTxDroppable, Tx, UnboundedSendError,
};
use barter::time::{Duration, Instant};
use std::sync::atomic::{AtomicUsize, Ordering};
use std::sync::Arc;
use std::task::Wake;

fn percentile(samples: &LatencySamples, percentile: f64) -> Option<Duration> {
    if samples.is_empty() {
        return None;
    }
    let rank = ((samples.len() - 1) as f64 * percentile.clamp(0.0, 1.0)).round() as usize;
    samples.sample_at_rank(rank)
}

#[test]
fn drop_oldest_keeps_capacity_bounded() {
    let (tx, mut rx) = mpsc_bounded(2, OverflowPolicy::DropOldest);
    tx.try_send(1).unwrap();
    tx.try_send(2).unwrap();
    tx.try_send(3).unwrap();
    assert_eq!(rx.try_recv(), Some(2));
    assert_eq!(rx.try_recv(), Some(3));
}

#[test]
fn synthetic_10x_burst_never_exceeds_capacity_and_percentiles_are_available() {
    let (tx, mut rx) = mpsc_bounded(10, OverflowPolicy::DropOldest);
    for value in 0..100 {
        tx.try_send(value).unwrap();
    }
    assert_eq!(tx.len(), 10);
    assert!(!tx.is_empty());
    assert_eq!(rx.try_recv(), Some(90));

    let now = Instant { nanos: 1_000 };
    let mut hops = MarketLatency::default();
    hops.exchange_to_received
        .record_duration(Duration::from_millis(2));
    hops.received_to_engine.record(now, now);
    hops.engine_process.record(now, now);
    assert!(percentile(hops.samples(LatencyHop::ExchangeToReceived), 0.50).is_some());
    assert!(percentile(hops.samples(LatencyHop::ReceivedToEngine), 0.95).is_some());
    assert!(percentile(hops.samples(LatencyHop::EngineProcess), 0.99).is_some());
}

#[test]
fn account_events_are_not_dropped_by_market_overflow() {
    let (market_tx, mut market_rx) = mpsc_bounded(2, OverflowPolicy::DropOldest);
    let (account_tx, mut account_rx) = mpsc_bounded(2, OverflowPolicy::Block);
    account_tx.try_send("account-1").unwrap();
    for value in 0..100 {
        market_tx.try_send(value).unwrap();
    }
    assert_eq!(account_rx.try_recv(), Some("account-1"));
    assert_eq!(market_rx.try_recv(), Some(98));
}

#[test]
fn conflate_replaces_stale_item_before_capacity_is_reached() {
    let (tx, mut rx) = mpsc_bounded(4, OverflowPolicy::Conflate);
    tx.try_send(1).unwrap();
    tx.try_send(2).unwrap();
    assert_eq!(rx.try_recv(), Some(2));
}

#[test]
fn conflate_keeps_only_latest_item() {
    let (tx, mut rx) = mpsc_bounded(2, OverflowPolicy::Conflate);
    tx.try_send(1).unwrap();
    tx.try_send(2).unwrap();
    tx.try_send(3).unwrap();
    assert_eq!(rx.try_recv(), Some(3));
}

#[derive(Debug, Clone)]
struct KeyedItem {
    key: ObservationKey,
    value: u64,
}

#[derive(Clone)]
struct KeyedItemKey;

impl KeyOf<KeyedItem> for KeyedItemKey {
    fn key_of(&self, item: &KeyedItem) -> Option<ObservationKey> {
        Some(item.key)
    }
}

fn key(instrument: u64, kind: u8) -> ObservationKey {
    ObservationKey { instrument, kind }
}

#[test]
fn keyed_conflate_keeps_latest_per_instrument_and_kind() {
    let (tx, mut rx) = mpsc_bounded_keyed(8, OverflowPolicy::Conflate, KeyedItemKey);
    let trade = key(1, 0);
    let book = key(1, 2);
    let other = key(2, 0);
    tx.try_send(KeyedItem { key: trade, value: 1 }).unwrap();
    tx.try_send(KeyedItem { key: book, value: 2 }).unwrap();
    tx.try_send(KeyedItem { key: other, value: 3 }).unwrap();
    tx.try_send(KeyedItem { key: trade, value: 4 }).unwrap();
    let mut seen = Vec::new();
    while let Some(item) = rx.try_recv() {
        seen.push((item.key, item.value));
    }
    assert_eq!(seen, vec![(book, 2), (other, 3), (trade, 4)]);
}

#[test]
fn keyed_conflate_drops_the_oldest_key_when_full() {
    let (tx, mut rx) = mpsc_bounded_keyed(2, OverflowPolicy::Conflate, KeyedItemKey);
    for (instrument, value) in [(1, 1), (2, 2), (3, 3)] {
        tx.try_send(KeyedItem { key: key(instrument, 0), value }).unwrap();
    }
    assert_eq!(tx.len(), 2);
    assert_eq!(rx.try_recv().unwrap().value, 2);
    assert_eq!(rx.try_recv().unwrap().value, 3);
}

#[test]
fn a_full_blocking_channel_hands_the_item_back() {
    let (tx, mut rx) = mpsc_bounded(1, OverflowPolicy::Block);
    assert!(tx.is_empty());
    assert_eq!(tx.policy(), OverflowPolicy::Block);
    assert_eq!(tx.capacity(), 1);
    tx.try_send(1).unwrap();
    let error = tx.try_send(2).unwrap_err();
    assert_eq!(error, BoundedSendError::Full(2));
    assert!(!error.is_unrecoverable());
    assert_eq!(rx.try_recv(), Some(1));
    assert_eq!(rx.try_recv(), None);
    tx.send(3).unwrap();
    assert_eq!(rx.try_recv(), Some(3));
}

#[test]
fn a_closed_channel_takes_nothing_and_is_drained() {
    let (tx, mut rx) = mpsc_bounded(2, OverflowPolicy::Block);
    tx.try_send(1).unwrap();
    rx.close();
    let error = tx.try_send(2).unwrap_err();
    assert_eq!(error, BoundedSendError::Closed(2));
    assert!(error.is_unrecoverable());
    assert!(rx.is_closed());
    assert_eq!(rx.try_recv(), Some(1));
}

#[test]
fn a_channel_closes_once_every_sender_has_left() {
    let (tx, rx) = mpsc_bounded::<u8>(2, OverflowPolicy::Block);
    let other = tx.clone();
    tx.leave();
    assert!(!rx.is_closed());
    other.leave();
    assert!(rx.is_closed());
}

/// Counts how often its task is woken.
struct Bell {
    rung: AtomicUsize,
}

impl Wake for Bell {
    fn wake(self: Arc<Self>) {
        self.rung.fetch_add(1, Ordering::SeqCst);
    }
}

fn bell() -> Arc<Bell> {
    Arc::new(Bell {
        rung: AtomicUsize::new(0),
    })
}

fn rings(bell: &Arc<Bell>) -> usize {
    bell.rung.load(Ordering::SeqCst)
}

#[test]
fn waiting_tasks_are_woken_once() {
    let (receiver, sender) = (bell(), bell());
    let (tx, mut rx) = mpsc_bounded(1, OverflowPolicy::Block);
    assert_eq!(rx.poll_recv(receiver.clone().into()), Received::Pending);
    assert_eq!(rings(&receiver), 0);
    tx.try_send(1).unwrap();
    assert_eq!(rings(&receiver), 1);

    assert!(!tx.await_room(sender.clone().into()));
    assert_eq!(tx.try_send(2), Err(BoundedSendError::Full(2)));
    assert_eq!((rings(&receiver), rings(&sender)), (1, 0));
    assert_eq!(rx.try_recv(), Some(1));
    assert_eq!((rings(&receiver), rings(&sender)), (1, 1));
    tx.try_send(3).unwrap();
    assert_eq!(rx.poll_recv(receiver.clone().into()), Received::Item(3));
    assert_eq!((rings(&receiver), rings(&sender)), (1, 1));
}

#[test]
fn the_last_sender_that_leaves_wakes_who_waits() {
    let (receiver, sender) = (bell(), bell());
    let mut state: BoundedState<u8> = BoundedState::new();
    state.join();
    assert_eq!(state.poll(receiver.clone().into()), Received::Pending);
    assert!(!state.await_room(0, OverflowPolicy::Block, sender.clone().into()));
    state.leave();
    assert_eq!((rings(&receiver), rings(&sender)), (0, 0));
    state.leave();
    assert_eq!((rings(&receiver), rings(&sender)), (1, 1));
    assert!(state.is_closed());
}

#[test]
fn a_new_channel_is_open_and_empty() {
    let (tx, mut rx) = mpsc_bounded(3, OverflowPolicy::Block);
    assert_eq!((tx.len(), tx.capacity()), (0, 3));
    assert!(tx.is_empty() && !rx.is_closed());
    assert_eq!(rx.try_recv(), None);
    for value in 0..3 {
        assert_eq!(tx.try_send(value), Ok(()));
    }
    assert_eq!(tx.try_send(3), Err(BoundedSendError::Full(3)));
}

#[test]
fn a_blocking_channel_is_first_in_first_out() {
    let (tx, mut rx) = mpsc_bounded(4, OverflowPolicy::Block);
    let other = tx.clone();
    let (mut sent, mut received) = (vec![], vec![]);
    for value in 0..100 {
        let end = if value % 2 == 0 { &tx } else { &other };
        if end.try_send(value).is_ok() {
            sent.push(value);
        }
        if value % 3 == 0 {
            received.extend(rx.try_recv());
        }
    }
    assert!(sent.len() < 100);
    while let Some(value) = rx.try_recv() {
        received.push(value);
    }
    assert_eq!(received, sent);
}

#[test]
fn waiting_tasks_are_told_apart() {
    let waker = futures::task::noop_waker();
    let mut state: BoundedState<u8> = BoundedState::new();
    assert_eq!(state.poll(waker.clone()), Received::Pending);
    assert_eq!(state.offer(7, 1, OverflowPolicy::Block, &Unkeyed), Ok(()));
    assert!(!state.await_room(1, OverflowPolicy::Block, waker.clone()));
    assert!(state.await_room(1, OverflowPolicy::DropOldest, waker.clone()));
    assert_eq!(state.poll(waker.clone()), Received::Item(7));
    state.close();
    assert_eq!(state.poll(waker), Received::Closed);
}

#[test]
fn samples_are_bounded_and_ranked() {
    let mut samples = LatencySamples::default();
    assert_eq!(percentile(&samples, 0.5), None);
    for millis in 0..(LATENCY_SAMPLE_CAPACITY as u64 + 4) {
        samples.record_duration(Duration::from_millis(millis));
    }
    assert_eq!(samples.len(), LATENCY_SAMPLE_CAPACITY);
    assert_eq!(samples.sample_at_rank(0), Some(Duration::from_millis(4)));
    assert_eq!(
        samples.sample_at_rank(LATENCY_SAMPLE_CAPACITY - 1),
        Some(Duration::from_millis(4_099))
    );
    assert_eq!(samples.sample_at_rank(LATENCY_SAMPLE_CAPACITY), None);
}

#[test]
fn ranks_follow_size_not_arrival() {
    let mut hops = MarketLatency::default();
    for millis in [30, 10, 20] {
        hops.engine_process.record_duration(Duration::from_millis(millis));
    }
    assert_eq!(
        hops.sample_at_rank(LatencyHop::EngineProcess, 0),
        Some(Duration::from_millis(10))
    );
    assert_eq!(
        hops.sample_at_rank(LatencyHop::EngineProcess, 2),
        Some(Duration::from_millis(30))
    );
    assert_eq!(hops.sample_at_rank(LatencyHop::ReceivedToEngine, 0), None);
}

#[test]
fn a_droppable_sender_stops_once_nobody_receives() {
    let (tx, rx) = mpsc_unbounded::<u8>();
    let mut sender = ChannelTxDroppable::new(tx);
    sender.send(1);
    assert!(matches!(sender.state, ChannelState::Active(_)));
    let mut receiver = rx.rx;
    assert_eq!(receiver.try_recv(), Ok(1));
    drop(receiver);
    sender.send(2);
    assert!(matches!(sender.state, ChannelState::Disabled));
    sender.send(3);
    let mut disabled: ChannelTxDroppable<u8> = ChannelTxDroppable::new_disabled();
    assert_eq!(disabled.state, ChannelState::Disabled);
    disabled.disable();
    assert_eq!(disabled.state, ChannelState::Disabled);
}

#[test]
fn an_unbounded_sender_answers_what_became_of_the_item() {
    assert_eq!(UnboundedSendError::<u32>::answer(Ok(())), Ok(()));
    assert_eq!(
        UnboundedSendError::answer(Err(7)),
        Err(UnboundedSendError(7))
    );
}

#[test]
fn an_unbounded_item_that_nobody_receives_comes_back() {
    let channel: Channel<u64> = Channel::default();
    drop(channel.rx);
    let error = channel.tx.send(7u32).unwrap_err();
    assert_eq!(error, UnboundedSendError(7));
    assert!(error.is_unrecoverable());
}
