//! Channels between the parts of a system, and samples of how long events take through them.

use std::collections::VecDeque;
use std::sync::Arc;
use std::task::Waker;
use vstd::prelude::*;
use vstd::rwlock::{RwLock, RwLockPredicate};

verus! {

/// An error after which there is no point in trying again.
pub trait Unrecoverable {
    /// What [`Unrecoverable::is_unrecoverable`] returns.
    open spec fn hopeless(&self) -> bool {
        arbitrary()
    }

    /// Whether there is no point in trying again.
    fn is_unrecoverable(&self) -> (result: bool)
        ensures
            result == self.hopeless(),
    ;
}

/// What happens to an item that comes to a full channel.
#[derive(Debug, Clone, Copy, PartialEq, Eq, Structural)]
pub enum OverflowPolicy {
    /// The item is refused. The sender may try again.
    Block,
    /// The oldest item in the channel makes room.
    DropOldest,
    /// Only the newest observation is kept: the newest of each key where the channel has keys,
    /// the newest of all otherwise.
    Conflate,
}

/// Why an item was not taken. It is handed back.
#[derive(Debug, Clone, PartialEq, Eq)]
pub enum BoundedSendError<T> {
    Full(T),
    Closed(T),
}

impl<T> Unrecoverable for BoundedSendError<T> {
    open spec fn hopeless(&self) -> bool {
        self is Closed
    }

    fn is_unrecoverable(&self) -> (result: bool) {
        matches!(self, BoundedSendError::Closed(_))
    }
}

/// What an observation is of: an instrument and a kind of data.
#[derive(Debug, Clone, Copy, PartialEq, Eq, Hash, Structural)]
pub struct ObservationKey {
    pub instrument: u64,
    pub kind: u8,
}

/// Says what the items of a channel are observations of. It is a function of the item.
pub trait KeyOf<T> {
    /// What [`KeyOf::key_of`] returns.
    open spec fn key(&self, item: T) -> Option<ObservationKey> {
        arbitrary()
    }

    /// What the item is an observation of, if it is one.
    fn key_of(&self, item: &T) -> (result: Option<ObservationKey>)
        ensures
            result == self.key(*item),
    ;
}

/// No item is an observation of anything.
#[derive(Debug, Clone, Copy)]
pub struct Unkeyed;

impl<T> KeyOf<T> for Unkeyed {
    open spec fn key(&self, item: T) -> Option<ObservationKey> {
        None
    }

    fn key_of(&self, item: &T) -> (result: Option<ObservationKey>) {
        None
    }
}

/// `std::task::Waker`, which wakes a task that waits for a channel.
#[verifier::external_type_specification]
#[verifier::external_body]
pub struct ExWaker(std::task::Waker);

/// `std::task::Waker::wake`: the task is woken. Nothing is said of when it runs.
#[verifier::external_body]
fn wake(waker: Waker) {
    waker.wake()
}

/// The task that waits is woken, if one does.
pub closed spec fn woken(waiting: Option<Waker>) -> bool {
    waiting matches Some(waker) ==> call_ensures(wake, (waker,), ())
}

/// Wakes the task that waits, if one does.
fn wake_waiting(waiting: Option<Waker>)
    ensures
        woken(waiting),
{
    match waiting {
        Some(waker) => wake(waker),
        None => {},
    }
}

/// What the two ends of a bounded channel share.
pub struct BoundedState<T> {
    queue: VecDeque<T>,
    waker: Option<Waker>,
    send_waker: Option<Waker>,
    closed: bool,
    senders: usize,
}

/// What the two ends of a bounded channel share, in the way contracts write it.
#[verifier::reject_recursive_types(T)]
pub struct ChannelView<T> {
    pub queue: Seq<T>,
    /// The task that waits for an item.
    pub receiver: Option<Waker>,
    /// The task that waits for room.
    pub sender: Option<Waker>,
    pub closed: bool,
    pub senders: usize,
}

impl<T> View for BoundedState<T> {
    type V = ChannelView<T>;

    closed spec fn view(&self) -> ChannelView<T> {
        ChannelView {
            queue: self.queue@,
            receiver: self.waker,
            sender: self.send_waker,
            closed: self.closed,
            senders: self.senders,
        }
    }
}

/// What an attempt to take an item finds.
#[derive(Debug, PartialEq, Eq)]
pub enum Received<T> {
    /// An item.
    Item(T),
    /// No item, and none will come.
    Closed,
    /// No item yet.
    Pending,
}

/// The items without the oldest one, where there are as many as the channel holds.
pub open spec fn make_room<T>(queue: Seq<T>, capacity: usize) -> Seq<T> {
    if queue.len() >= capacity {
        queue.subrange(1, queue.len() as int)
    } else {
        queue
    }
}

/// The items that are no observations of the key, in order.
pub open spec fn others<T, K: KeyOf<T>>(
    queue: Seq<T>,
    keys: K,
    key: ObservationKey,
) -> Seq<T> {
    queue.filter(|queued: T| keys.key(queued) != Some(key))
}

impl<T> ChannelView<T> {
    /// A channel with one sender and nothing in it.
    pub open spec fn fresh() -> ChannelView<T> {
        ChannelView {
            queue: Seq::empty(),
            receiver: None,
            sender: None,
            closed: false,
            senders: 1,
        }
    }

    /// The items after one more comes, where it is taken.
    pub open spec fn queue_with<K: KeyOf<T>>(
        self,
        item: T,
        capacity: usize,
        policy: OverflowPolicy,
        keys: K,
    ) -> Seq<T> {
        match policy {
            OverflowPolicy::Block => self.queue,
            OverflowPolicy::DropOldest => make_room(self.queue, capacity),
            OverflowPolicy::Conflate => match keys.key(item) {
                Some(key) => make_room(others(self.queue, keys, key), capacity),
                None => Seq::empty(),
            },
        }.push(item)
    }

    /// The channel after an item comes, and whether it is taken.
    pub open spec fn offered<K: KeyOf<T>>(
        self,
        item: T,
        capacity: usize,
        policy: OverflowPolicy,
        keys: K,
    ) -> (ChannelView<T>, Result<(), BoundedSendError<T>>) {
        if self.closed {
            (self, Err(BoundedSendError::Closed(item)))
        } else if policy is Block && self.queue.len() >= capacity {
            (self, Err(BoundedSendError::Full(item)))
        } else {
            (
                ChannelView {
                    queue: self.queue_with(item, capacity, policy, keys),
                    receiver: None,
                    ..self
                },
                Ok(()),
            )
        }
    }

    /// The channel after an item is asked for, and the oldest item, if there is one.
    pub open spec fn taken(self) -> (ChannelView<T>, Option<T>) {
        if self.queue.len() > 0 {
            (
                ChannelView {
                    queue: self.queue.subrange(1, self.queue.len() as int),
                    sender: None,
                    ..self
                },
                Some(self.queue[0]),
            )
        } else {
            (self, None)
        }
    }

    /// The channel after an item is asked for by the task of the waker, which waits for one where
    /// there is none.
    pub open spec fn polled(self, waker: Waker) -> (ChannelView<T>, Received<T>) {
        match self.taken().1 {
            Some(item) => (self.taken().0, Received::Item(item)),
            None => if self.closed {
                (self, Received::Closed)
            } else {
                (ChannelView { receiver: Some(waker), ..self }, Received::Pending)
            },
        }
    }

    /// The channel after the task of the waker asks for room and waits where there is none, and
    /// whether there is room.
    pub open spec fn room_awaited(self, capacity: usize, policy: OverflowPolicy, waker: Waker) -> (
        ChannelView<T>,
        bool,
    ) {
        if policy is Block && self.queue.len() >= capacity {
            (ChannelView { sender: Some(waker), ..self }, false)
        } else {
            (self, true)
        }
    }

    /// The channel with one more sender.
    pub open spec fn joined(self) -> ChannelView<T> {
        if self.senders < usize::MAX {
            ChannelView { senders: (self.senders + 1) as usize, ..self }
        } else {
            self
        }
    }

    /// The channel with one sender less. Without senders it is closed.
    pub open spec fn left(self) -> ChannelView<T> {
        let senders = if self.senders > 0 {
            (self.senders - 1) as usize
        } else {
            0
        };
        if senders == 0 {
            ChannelView {
                senders,
                closed: true,
                receiver: None,
                sender: None,
                ..self
            }
        } else {
            ChannelView { senders, ..self }
        }
    }
}

/// Keeps the items that are no observations of the key.
fn keep_others<T, K: KeyOf<T>>(queue: &mut VecDeque<T>, keys: &K, key: ObservationKey)
    ensures
        final(queue)@ == others(old(queue)@, *keys, key),
{
    let ghost all = queue@;
    let ghost pred = |queued: T| keys.key(queued) != Some(key);
    let count = queue.len();
    let mut kept: VecDeque<T> = VecDeque::new();
    let mut done: usize = 0;
    assert(all.take(0) =~= Seq::empty());
    assert(all.skip(0) =~= all);
    assert(kept@ =~= all.take(0).filter(pred));
    while done < count
        invariant
            done <= count,
            count == all.len(),
            pred == (|queued: T| keys.key(queued) != Some(key)),
            queue@ == all.skip(done as int),
            kept@ == all.take(done as int).filter(pred),
        decreases count - done,
    {
        match queue.pop_front() {
            Some(item) => {
                proof {
                    assert(item == all[done as int]);
                    assert(queue@ =~= all.skip(done + 1));
                    assert(all.take(done + 1) =~= all.take(done as int).push(item));
                    Seq::lemma_filter_push(all.take(done as int), item, pred);
                }
                if keys.key_of(&item) != Some(key) {
                    kept.push_back(item);
                }
            },
            None => {},
        }
        done = done + 1;
    }
    assert(all.take(done as int) =~= all);
    *queue = kept;
}

impl<T> BoundedState<T> {
    /// A channel with one sender and nothing in it.
    pub fn new() -> (result: BoundedState<T>)
        ensures
            result@ == ChannelView::<T>::fresh(),
    {
        BoundedState {
            queue: VecDeque::new(),
            waker: None,
            send_waker: None,
            closed: false,
            senders: 1,
        }
    }

    /// Takes an item in, as the policy says.
    pub fn offer<K: KeyOf<T>>(
        &mut self,
        item: T,
        capacity: usize,
        policy: OverflowPolicy,
        keys: &K,
    ) -> (result: Result<(), BoundedSendError<T>>)
        requires
            capacity > 0,
        ensures
            (final(self)@, result) == old(self)@.offered(item, capacity, policy, *keys),
            result is Ok ==> woken(old(self)@.receiver),
    {
        if self.closed {
            return Err(BoundedSendError::Closed(item));
        }
        match policy {
            OverflowPolicy::Block => {
                if self.queue.len() >= capacity {
                    return Err(BoundedSendError::Full(item));
                }
            },
            OverflowPolicy::DropOldest => {
                if self.queue.len() >= capacity {
                    let _ = self.queue.pop_front();
                }
            },
            OverflowPolicy::Conflate => match keys.key_of(&item) {
                Some(key) => {
                    keep_others(&mut self.queue, keys, key);
                    if self.queue.len() >= capacity {
                        let _ = self.queue.pop_front();
                    }
                },
                None => self.queue.clear(),
            },
        }
        self.queue.push_back(item);
        wake_waiting(self.waker.take());
        Ok(())
    }

    /// Takes the oldest item out, if there is one.
    pub fn take(&mut self) -> (result: Option<T>)
        ensures
            (final(self)@, result) == old(self)@.taken(),
            result is Some ==> woken(old(self)@.sender),
    {
        let item = self.queue.pop_front();
        if item.is_some() {
            wake_waiting(self.send_waker.take());
        }
        item
    }

    /// Takes the oldest item out, if there is one. Otherwise the task of the waker waits.
    pub fn poll(&mut self, waker: Waker) -> (result: Received<T>)
        ensures
            (final(self)@, result) == old(self)@.polled(waker),
            result is Item ==> woken(old(self)@.sender),
    {
        match self.take() {
            Some(item) => Received::Item(item),
            None => if self.closed {
                Received::Closed
            } else {
                self.waker = Some(waker);
                Received::Pending
            },
        }
    }

    /// Whether there is room for an item. Otherwise the task of the waker waits.
    pub fn await_room(&mut self, capacity: usize, policy: OverflowPolicy, waker: Waker) -> (result:
        bool)
        ensures
            (final(self)@, result) == old(self)@.room_awaited(capacity, policy, waker),
    {
        if policy == OverflowPolicy::Block && self.queue.len() >= capacity {
            self.send_waker = Some(waker);
            false
        } else {
            true
        }
    }

    /// One more sender.
    pub fn join(&mut self)
        ensures
            final(self)@ == old(self)@.joined(),
    {
        if self.senders < usize::MAX {
            self.senders = self.senders + 1;
        }
    }

    /// One sender less.
    pub fn leave(&mut self)
        ensures
            final(self)@ == old(self)@.left(),
            old(self)@.senders <= 1 ==> woken(old(self)@.receiver) && woken(old(self)@.sender),
    {
        if self.senders > 0 {
            self.senders = self.senders - 1;
        }
        if self.senders == 0 {
            self.closed = true;
            wake_waiting(self.waker.take());
            wake_waiting(self.send_waker.take());
        }
    }

    /// Closes the channel.
    pub fn close(&mut self)
        ensures
            final(self)@ == (ChannelView { closed: true, ..old(self)@ }),
    {
        self.closed = true;
    }

    /// How many items are in the channel.
    pub fn len(&self) -> (result: usize)
        ensures
            result == self@.queue.len(),
    {
        self.queue.len()
    }

    /// Whether the channel is closed.
    pub fn is_closed(&self) -> (result: bool)
        ensures
            result == self@.closed,
    {
        self.closed
    }
}

/// A channel never holds more than its capacity.
pub struct WithinCapacity {
    pub capacity: usize,
}

impl<T> RwLockPredicate<BoundedState<T>> for WithinCapacity {
    open spec fn inv(self, state: BoundedState<T>) -> bool {
        state@.queue.len() <= self.capacity
    }
}

/// The sending end of a bounded channel.
pub struct BoundedTx<T, K> {
    state: Arc<RwLock<BoundedState<T>, WithinCapacity>>,
    capacity: usize,
    policy: OverflowPolicy,
    keys: K,
}

/// The receiving end of a bounded channel.
pub struct BoundedRx<T> {
    state: Arc<RwLock<BoundedState<T>, WithinCapacity>>,
}

/// Whether what the ends of a channel share may be taken from its lock like this, and be put back
/// like that.
pub open spec fn exchanged<'a, T>(
    lock: &'a RwLock<BoundedState<T>, WithinCapacity>,
    before: BoundedState<T>,
    after: BoundedState<T>,
) -> bool {
    exists|handle: vstd::rwlock::WriteHandle<'a, BoundedState<T>, WithinCapacity>|
        #[trigger] call_ensures(
            RwLock::<BoundedState<T>, WithinCapacity>::acquire_write,
            (lock,),
            (before, handle),
        ) && call_ensures(
            vstd::rwlock::WriteHandle::<'a, BoundedState<T>, WithinCapacity>::release_write,
            (handle, after),
            (),
        )
}

/// Whether a lock may be one that was made around an open channel with one sender and nothing in
/// it.
pub open spec fn starts_fresh<T>(
    lock: RwLock<BoundedState<T>, WithinCapacity>,
    capacity: usize,
) -> bool {
    exists|fresh: BoundedState<T>|
        fresh@ == ChannelView::<T>::fresh() && #[trigger] call_ensures(
            RwLock::<BoundedState<T>, WithinCapacity>::new,
            (fresh, Ghost(WithinCapacity { capacity })),
            lock,
        )
}

impl<T, K> BoundedTx<T, K> {
    #[verifier::type_invariant]
    spec fn well_formed(self) -> bool {
        self.capacity > 0 && self.state.pred().capacity == self.capacity
    }

    /// How many items the channel can hold.
    pub closed spec fn room(self) -> usize {
        self.capacity
    }

    /// What happens when the channel is full.
    pub closed spec fn overflow(self) -> OverflowPolicy {
        self.policy
    }

    /// What the items are observations of.
    pub closed spec fn keys(self) -> K {
        self.keys
    }

    /// What this end shares with the others of the channel.
    pub closed spec fn shared(self) -> RwLock<BoundedState<T>, WithinCapacity> {
        *self.state
    }
}

impl<T> BoundedRx<T> {
    /// What this end shares with the others of the channel.
    pub closed spec fn shared(self) -> RwLock<BoundedState<T>, WithinCapacity> {
        *self.state
    }
}

impl<T, K> BoundedTx<T, K> {
    /// What happens when the channel is full.
    pub fn policy(&self) -> (result: OverflowPolicy)
        ensures
            result == self.overflow(),
    {
        self.policy
    }

    /// How many items the channel can hold.
    pub fn capacity(&self) -> (result: usize)
        ensures
            result == self.room(),
            result > 0,
    {
        proof {
            use_type_invariant(self);
        }
        self.capacity
    }

    /// How many items are in the channel.
    pub fn len(&self) -> (result: usize)
        ensures
            result <= self.room(),
            exists|now: BoundedState<T>|
                #[trigger] exchanged(&self.shared(), now, now) && result == now@.queue.len(),
    {
        proof {
            use_type_invariant(self);
        }
        let (state, handle) = self.state.acquire_write();
        let result = state.len();
        handle.release_write(state);
        assert(exchanged(&self.shared(), state, state));
        result
    }

    /// Whether no item is in the channel.
    pub fn is_empty(&self) -> (result: bool)
        ensures
            exists|now: BoundedState<T>|
                #[trigger] exchanged(&self.shared(), now, now) && result == (now@.queue.len() == 0),
    {
        self.len() == 0
    }

    /// Gives the channel up. Once every sender has done so, the channel is closed.
    pub fn leave(&self)
        ensures
            exists|before: BoundedState<T>, after: BoundedState<T>|
                #[trigger] exchanged(&self.shared(), before, after) && after@ == before@.left() && (
                before@.senders <= 1 ==> woken(before@.receiver) && woken(before@.sender)),
    {
        proof {
            use_type_invariant(self);
        }
        let (mut state, handle) = self.state.acquire_write();
        let ghost before = state;
        state.leave();
        handle.release_write(state);
        assert(exchanged(&self.shared(), before, state));
    }

    /// Whether there is room for an item. Otherwise the task of the waker is woken when there is.
    pub fn await_room(&self, waker: Waker) -> (result: bool)
        ensures
            !(self.overflow() is Block) ==> result,
            exists|before: BoundedState<T>, after: BoundedState<T>|
                #[trigger] exchanged(&self.shared(), before, after) && (after@, result)
                    == before@.room_awaited(self.room(), self.overflow(), waker),
    {
        proof {
            use_type_invariant(self);
        }
        let (mut state, handle) = self.state.acquire_write();
        let ghost before = state;
        let result = state.await_room(self.capacity, self.policy, waker);
        handle.release_write(state);
        assert(exchanged(&self.shared(), before, state));
        result
    }
}

impl<T, K: KeyOf<T>> BoundedTx<T, K> {
    /// Sends an item, as the policy says.
    pub fn try_send(&self, item: T) -> (result: Result<(), BoundedSendError<T>>)
        ensures
            exists|before: BoundedState<T>, after: BoundedState<T>|
                #[trigger] exchanged(&self.shared(), before, after) && before@.queue.len()
                    <= self.room() && (after@, result) == before@.offered(
                    item,
                    self.room(),
                    self.overflow(),
                    self.keys(),
                ) && (result is Ok ==> woken(before@.receiver)),
            result matches Err(BoundedSendError::Full(back)) ==> back == item && self.overflow()
                is Block,
            result matches Err(BoundedSendError::Closed(back)) ==> back == item,
    {
        proof {
            use_type_invariant(self);
        }
        let (mut state, handle) = self.state.acquire_write();
        let ghost before = state;
        let result = state.offer(item, self.capacity, self.policy, &self.keys);
        proof {
            law_channel_never_exceeds_capacity(before@, item, self.capacity, self.policy, self.keys);
        }
        handle.release_write(state);
        assert(exchanged(&self.shared(), before, state));
        result
    }
}

impl<T> BoundedRx<T> {
    /// Takes the oldest item, if there is one.
    pub fn try_recv(&mut self) -> (result: Option<T>)
        ensures
            final(self).shared() == old(self).shared(),
            exists|before: BoundedState<T>, after: BoundedState<T>|
                #[trigger] exchanged(&old(self).shared(), before, after) && (after@, result)
                    == before@.taken() && (result is Some ==> woken(before@.sender)),
    {
        let (mut state, handle) = self.state.acquire_write();
        let ghost before = state;
        let result = state.take();
        handle.release_write(state);
        assert(exchanged(&old(self).shared(), before, state));
        result
    }

    /// Takes the oldest item, if there is one. Otherwise the task of the waker is woken when one
    /// comes or the channel is closed.
    pub fn poll_recv(&mut self, waker: Waker) -> (result: Received<T>)
        ensures
            final(self).shared() == old(self).shared(),
            exists|before: BoundedState<T>, after: BoundedState<T>|
                #[trigger] exchanged(&old(self).shared(), before, after) && (after@, result)
                    == before@.polled(waker) && (result is Item ==> woken(before@.sender)),
    {
        let (mut state, handle) = self.state.acquire_write();
        let ghost before = state;
        let result = state.poll(waker);
        handle.release_write(state);
        assert(exchanged(&old(self).shared(), before, state));
        result
    }

    /// Whether the channel is closed.
    pub fn is_closed(&self) -> (result: bool)
        ensures
            exists|now: BoundedState<T>|
                #[trigger] exchanged(&self.shared(), now, now) && result == now@.closed,
    {
        let (state, handle) = self.state.acquire_write();
        let result = state.is_closed();
        handle.release_write(state);
        assert(exchanged(&self.shared(), state, state));
        result
    }

    /// Closes the channel.
    pub fn close(&self)
        ensures
            exists|before: BoundedState<T>, after: BoundedState<T>|
                #[trigger] exchanged(&self.shared(), before, after) && after@ == (ChannelView {
                    closed: true,
                    ..before@
                }),
    {
        let (mut state, handle) = self.state.acquire_write();
        let ghost before = state;
        state.close();
        handle.release_write(state);
        assert(exchanged(&self.shared(), before, state));
    }
}

/// A channel that is not over its capacity is not over it after an item comes either.
pub proof fn law_channel_never_exceeds_capacity<T, K: KeyOf<T>>(
    channel: ChannelView<T>,
    item: T,
    capacity: usize,
    policy: OverflowPolicy,
    keys: K,
)
    requires
        capacity > 0,
        channel.queue.len() <= capacity,
    ensures
        channel.offered(item, capacity, policy, keys).0.queue.len() <= capacity,
{
    if policy is Conflate {
        match keys.key(item) {
            Some(key) => {
                channel.queue.lemma_filter_len(|queued: T| keys.key(queued) != Some(key));
            },
            None => {},
        }
    }
}

impl<T, K: Clone> Clone for BoundedTx<T, K> {
    fn clone(&self) -> (result: Self)
        ensures
            result.room() == self.room(),
            result.overflow() == self.overflow(),
            result.shared() == self.shared(),
            cloned(self.keys(), result.keys()),
            exists|before: BoundedState<T>, after: BoundedState<T>|
                #[trigger] exchanged(&self.shared(), before, after) && after@ == before@.joined(),
    {
        proof {
            use_type_invariant(self);
        }
        let (mut state, handle) = self.state.acquire_write();
        let ghost before = state;
        state.join();
        handle.release_write(state);
        assert(exchanged(&self.shared(), before, state));
        BoundedTx {
            state: Arc::clone(&self.state),
            capacity: self.capacity,
            policy: self.policy,
            keys: self.keys.clone(),
        }
    }
}

/// A bounded channel without keys.
pub fn mpsc_bounded<T>(capacity: usize, policy: OverflowPolicy) -> (result: (
    BoundedTx<T, Unkeyed>,
    BoundedRx<T>,
))
    requires
        capacity > 0,
    ensures
        result.0.room() == capacity,
        result.0.overflow() == policy,
        result.0.keys() == Unkeyed,
        result.0.shared() == result.1.shared(),
        starts_fresh(result.0.shared(), capacity),
{
    mpsc_bounded_keyed(capacity, policy, Unkeyed)
}

/// A bounded channel with keys: conflating, it keeps the newest item of each key.
pub fn mpsc_bounded_keyed<T, K: KeyOf<T>>(
    capacity: usize,
    policy: OverflowPolicy,
    keys: K,
) -> (result: (BoundedTx<T, K>, BoundedRx<T>))
    requires
        capacity > 0,
    ensures
        result.0.room() == capacity,
        result.0.overflow() == policy,
        result.0.keys() == keys,
        result.0.shared() == result.1.shared(),
        starts_fresh(result.0.shared(), capacity),
{
    let fresh: BoundedState<T> = BoundedState::new();
    let lock = RwLock::new(fresh, Ghost(WithinCapacity { capacity }));
    assert(starts_fresh(lock, capacity));
    let state = Arc::new(lock);
    (
        BoundedTx { state: Arc::clone(&state), capacity, policy, keys },
        BoundedRx { state },
    )
}

/// A channel that blocks never drops an item: what it takes goes behind the others, and what it
/// refuses comes back.
pub proof fn law_block_never_drops<T, K: KeyOf<T>>(
    channel: ChannelView<T>,
    item: T,
    capacity: usize,
    keys: K,
)
    ensures
        ({
            let (after, result) = channel.offered(item, capacity, OverflowPolicy::Block, keys);
            match result {
                Ok(()) => after.queue == channel.queue.push(item),
                Err(BoundedSendError::Full(back)) => after == channel && back == item
                    && channel.queue.len() >= capacity,
                Err(BoundedSendError::Closed(back)) => after == channel && back == item
                    && channel.closed,
            }
        }),
{
}

/// A channel that drops the oldest items keeps the newest ones, as many as it holds, in order.
pub proof fn law_drop_oldest_keeps_newest<T, K: KeyOf<T>>(
    channel: ChannelView<T>,
    item: T,
    capacity: usize,
    keys: K,
)
    requires
        capacity > 0,
        channel.queue.len() <= capacity,
        !channel.closed,
    ensures
        ({
            let sent = channel.queue.push(item);
            let dropped = if sent.len() > capacity {
                sent.len() - capacity
            } else {
                0
            };
            channel.offered(item, capacity, OverflowPolicy::DropOldest, keys).0.queue == sent.skip(
                dropped,
            )
        }),
{
    let sent = channel.queue.push(item);
    let dropped = if sent.len() > capacity {
        sent.len() - capacity
    } else {
        0
    };
    assert(channel.offered(item, capacity, OverflowPolicy::DropOldest, keys).0.queue =~= sent.skip(
        dropped,
    ));
}

/// Without keys, a channel that conflates keeps only the newest item.
pub proof fn law_conflate_without_keys_keeps_newest<T, K: KeyOf<T>>(
    channel: ChannelView<T>,
    item: T,
    capacity: usize,
    keys: K,
)
    requires
        !channel.closed,
        keys.key(item) is None,
    ensures
        channel.offered(item, capacity, OverflowPolicy::Conflate, keys).0.queue == seq![item],
{
    assert(channel.offered(item, capacity, OverflowPolicy::Conflate, keys).0.queue =~= seq![item]);
}

/// No two items are observations of the same key.
pub open spec fn one_per_key<T, K: KeyOf<T>>(queue: Seq<T>, keys: K) -> bool {
    forall|i: int, j: int|
        0 <= i < j < queue.len() && keys.key(queue[i]) is Some ==> #[trigger] keys.key(queue[i])
            != #[trigger] keys.key(queue[j])
}

/// With keys, a channel that conflates keeps one item per key, and of the key of the item that
/// came it keeps that item, behind all others. Where the keys leave room, every item of another
/// key stays.
pub proof fn law_conflate_keeps_newest_per_key<T, K: KeyOf<T>>(
    channel: ChannelView<T>,
    item: T,
    capacity: usize,
    keys: K,
)
    requires
        capacity > 0,
        !channel.closed,
        keys.key(item) is Some,
        one_per_key(channel.queue, keys),
    ensures
        ({
            let after = channel.offered(item, capacity, OverflowPolicy::Conflate, keys).0.queue;
            let kept = others(channel.queue, keys, keys.key(item)->0);
            &&& after.last() == item
            &&& one_per_key(after, keys)
            &&& kept.len() < capacity ==> after == kept.push(item)
            &&& forall|i: int|
                0 <= i < after.len() - 1 ==> channel.queue.contains(#[trigger] after[i])
                    && keys.key(after[i]) != keys.key(item)
            &&& forall|queued: T| #[trigger]
                channel.queue.contains(queued) && keys.key(queued) != keys.key(item)
                    ==> kept.contains(queued)
        }),
{
    let key = keys.key(item)->0;
    let pred = |queued: T| keys.key(queued) != Some(key);
    let kept = others(channel.queue, keys, key);
    let room = make_room(kept, capacity);
    let after = channel.offered(item, capacity, OverflowPolicy::Conflate, keys).0.queue;
    assert(after == room.push(item));
    lemma_filter_one_per_key(channel.queue, keys, pred);
    assert forall|i: int| 0 <= i < kept.len() implies channel.queue.contains(#[trigger] kept[i])
        && keys.key(kept[i]) != Some(key) by {
        assert(kept.contains(kept[i]));
        channel.queue.lemma_filter_contains_rev(pred, kept[i]);
    }
    assert forall|i: int| 0 <= i < after.len() - 1 implies channel.queue.contains(
        #[trigger] after[i],
    ) && keys.key(after[i]) != keys.key(item) by {
        let j = if kept.len() >= capacity {
            i + 1
        } else {
            i
        };
        assert(after[i] == kept[j]);
    }
    assert forall|queued: T| #[trigger]
        channel.queue.contains(queued) && keys.key(queued) != keys.key(item) implies kept.contains(
        queued,
    ) by {
        let i = choose|i: int| 0 <= i < channel.queue.len() && channel.queue[i] == queued;
        channel.queue.lemma_filter_contains(pred, i);
    }
    assert forall|i: int, j: int|
        0 <= i < j < after.len() && keys.key(after[i]) is Some implies #[trigger] keys.key(after[i])
        != #[trigger] keys.key(after[j]) by {
        let shift = if kept.len() >= capacity {
            1int
        } else {
            0
        };
        assert(after[i] == kept[i + shift]);
        if j < after.len() - 1 {
            assert(after[j] == kept[j + shift]);
        }
    }
}

/// Leaving items out keeps one per key.
proof fn lemma_filter_one_per_key<T, K: KeyOf<T>>(
    queue: Seq<T>,
    keys: K,
    pred: spec_fn(T) -> bool,
)
    requires
        one_per_key(queue, keys),
    ensures
        one_per_key(queue.filter(pred), keys),
    decreases queue.len(),
{
    reveal(Seq::filter);
    if queue.len() > 0 {
        let front = queue.drop_last();
        assert forall|i: int, j: int|
            0 <= i < j < front.len() && keys.key(front[i]) is Some implies #[trigger] keys.key(
            front[i],
        ) != #[trigger] keys.key(front[j]) by {
            assert(front[i] == queue[i] && front[j] == queue[j]);
        }
        lemma_filter_one_per_key(front, keys, pred);
        let kept = front.filter(pred);
        if pred(queue.last()) {
            assert(queue.filter(pred) == kept.push(queue.last()));
            assert forall|i: int, j: int|
                0 <= i < j < kept.len() + 1 && keys.key(kept.push(queue.last())[i]) is Some implies
            #[trigger] keys.key(kept.push(queue.last())[i]) != #[trigger] keys.key(
                kept.push(queue.last())[j],
            ) by {
                if j == kept.len() {
                    assert(kept.contains(kept[i]));
                    front.lemma_filter_contains_rev(pred, kept[i]);
                    let k = choose|k: int| 0 <= k < front.len() && front[k] == kept[i];
                    assert(queue[k] == kept[i]);
                    assert(keys.key(queue[k]) != keys.key(queue[queue.len() - 1]));
                }
            }
        } else {
            assert(queue.filter(pred) == kept);
        }
    }
}

/// Items are received in the order in which they were taken: what comes out is the oldest, and
/// the others stay in order.
pub proof fn law_oldest_comes_first<T, K: KeyOf<T>>(
    channel: ChannelView<T>,
    item: T,
    capacity: usize,
    keys: K,
)
    requires
        !channel.closed,
        channel.queue.len() < capacity,
    ensures
        ({
            let sent = channel.offered(item, capacity, OverflowPolicy::Block, keys).0;
            let (after, result) = sent.taken();
            &&& channel.queue.len() == 0 ==> result == Some(item) && after.queue.len() == 0
            &&& channel.queue.len() > 0 ==> result == Some(channel.queue[0]) && after.queue
                == channel.queue.skip(1).push(item)
        }),
{
    let sent = channel.offered(item, capacity, OverflowPolicy::Block, keys).0;
    if channel.queue.len() > 0 {
        assert(sent.taken().0.queue =~= channel.queue.skip(1).push(item));
    }
}

/// A closed channel takes no item, and still hands out those that it holds.
pub proof fn law_closed_channel_drains<T, K: KeyOf<T>>(
    channel: ChannelView<T>,
    item: T,
    capacity: usize,
    policy: OverflowPolicy,
    keys: K,
    waker: Waker,
)
    requires
        channel.closed,
    ensures
        channel.offered(item, capacity, policy, keys) == (
            channel,
            Err::<(), BoundedSendError<T>>(BoundedSendError::Closed(item)),
        ),
        channel.queue.len() > 0 ==> channel.polled(waker).1 == Received::Item(channel.queue[0]),
        channel.queue.len() == 0 ==> channel.polled(waker) == (channel, Received::<T>::Closed),
{
}

/// One use of a channel.
#[verifier::reject_recursive_types(T)]
pub enum ChannelStep<T> {
    /// An item comes.
    Send(T),
    /// An item is asked for.
    Receive,
    /// An item is asked for by the task of the waker.
    Poll(Waker),
    /// The task of the waker asks for room.
    AwaitRoom(Waker),
    /// A sender joins.
    Join,
    /// A sender leaves.
    Leave,
    /// The receiver closes the channel.
    Close,
}

/// A channel, and what has gone in and come out of it so far.
#[verifier::reject_recursive_types(T)]
pub struct ChannelRun<T> {
    pub channel: ChannelView<T>,
    /// The items that were taken, in order.
    pub sent: Seq<T>,
    /// The items that were handed out, in order.
    pub received: Seq<T>,
}

impl<T> ChannelRun<T> {
    /// After one more use of the channel.
    pub open spec fn then_step<K: KeyOf<T>>(
        self,
        step: ChannelStep<T>,
        capacity: usize,
        policy: OverflowPolicy,
        keys: K,
    ) -> ChannelRun<T> {
        match step {
            ChannelStep::Send(item) => {
                let (channel, answer) = self.channel.offered(item, capacity, policy, keys);
                ChannelRun {
                    channel,
                    sent: if answer is Ok {
                        self.sent.push(item)
                    } else {
                        self.sent
                    },
                    ..self
                }
            },
            ChannelStep::Receive => {
                let (channel, item) = self.channel.taken();
                ChannelRun {
                    channel,
                    received: match item {
                        Some(item) => self.received.push(item),
                        None => self.received,
                    },
                    ..self
                }
            },
            ChannelStep::Poll(waker) => {
                let (channel, found) = self.channel.polled(waker);
                ChannelRun {
                    channel,
                    received: match found {
                        Received::Item(item) => self.received.push(item),
                        _ => self.received,
                    },
                    ..self
                }
            },
            ChannelStep::AwaitRoom(waker) => ChannelRun {
                channel: self.channel.room_awaited(capacity, policy, waker).0,
                ..self
            },
            ChannelStep::Join => ChannelRun { channel: self.channel.joined(), ..self },
            ChannelStep::Leave => ChannelRun { channel: self.channel.left(), ..self },
            ChannelStep::Close => ChannelRun {
                channel: ChannelView { closed: true, ..self.channel },
                ..self
            },
        }
    }

    /// After one use of the channel after the other.
    pub open spec fn then_steps<K: KeyOf<T>>(
        self,
        steps: Seq<ChannelStep<T>>,
        capacity: usize,
        policy: OverflowPolicy,
        keys: K,
    ) -> ChannelRun<T>
        decreases steps.len(),
    {
        if steps.len() == 0 {
            self
        } else {
            self.then_steps(steps.drop_last(), capacity, policy, keys).then_step(
                steps.last(),
                capacity,
                policy,
                keys,
            )
        }
    }
}

/// A channel that blocks is first in, first out, however it is used: the items that came out,
/// followed by those that are still in it, are the items that were taken, in order.
pub proof fn law_block_is_first_in_first_out<T, K: KeyOf<T>>(
    start: ChannelRun<T>,
    steps: Seq<ChannelStep<T>>,
    capacity: usize,
    keys: K,
)
    requires
        start.received + start.channel.queue == start.sent,
    ensures
        ({
            let end = start.then_steps(steps, capacity, OverflowPolicy::Block, keys);
            end.received + end.channel.queue == end.sent
        }),
    decreases steps.len(),
{
    if steps.len() > 0 {
        law_block_is_first_in_first_out(start, steps.drop_last(), capacity, keys);
        let run = start.then_steps(steps.drop_last(), capacity, OverflowPolicy::Block, keys);
        let end = start.then_steps(steps, capacity, OverflowPolicy::Block, keys);
        assert(end.received + end.channel.queue =~= end.sent);
    }
}

/// A channel that is not over its capacity never comes to be, however it is used.
pub proof fn law_channel_stays_within_capacity<T, K: KeyOf<T>>(
    start: ChannelRun<T>,
    steps: Seq<ChannelStep<T>>,
    capacity: usize,
    policy: OverflowPolicy,
    keys: K,
)
    requires
        capacity > 0,
        start.channel.queue.len() <= capacity,
    ensures
        start.then_steps(steps, capacity, policy, keys).channel.queue.len() <= capacity,
    decreases steps.len(),
{
    if steps.len() > 0 {
        law_channel_stays_within_capacity(start, steps.drop_last(), capacity, policy, keys);
        if let ChannelStep::Send(item) = steps.last() {
            let run = start.then_steps(steps.drop_last(), capacity, policy, keys);
            law_channel_never_exceeds_capacity(run.channel, item, capacity, policy, keys);
        }
    }
}

/// The steps by which the items come, one after the other.
pub open spec fn burst_of<T>(items: Seq<T>) -> Seq<ChannelStep<T>> {
    items.map_values(|item: T| ChannelStep::Send(item))
}

/// After a burst of items, an open channel that drops the oldest holds the newest of all that it
/// had and got, as many as it can, in order.
pub proof fn law_burst_leaves_newest<T, K: KeyOf<T>>(
    start: ChannelRun<T>,
    items: Seq<T>,
    capacity: usize,
    keys: K,
)
    requires
        capacity > 0,
        start.channel.queue.len() <= capacity,
        !start.channel.closed,
    ensures
        ({
            let end = start.then_steps(burst_of(items), capacity, OverflowPolicy::DropOldest, keys);
            let all = start.channel.queue + items;
            let dropped = if all.len() > capacity {
                all.len() - capacity
            } else {
                0
            };
            &&& !end.channel.closed
            &&& end.sent == start.sent + items
            &&& end.channel.queue == all.skip(dropped)
        }),
    decreases items.len(),
{
    let policy = OverflowPolicy::DropOldest;
    let all = start.channel.queue + items;
    if items.len() == 0 {
        assert(burst_of(items).len() == 0);
        assert(all.skip(0) =~= start.channel.queue);
        assert(start.sent + items =~= start.sent);
    } else {
        let front = items.drop_last();
        law_burst_leaves_newest(start, front, capacity, keys);
        assert(burst_of(items).drop_last() =~= burst_of(front));
        let run = start.then_steps(burst_of(front), capacity, policy, keys);
        let end = start.then_steps(burst_of(items), capacity, policy, keys);
        law_drop_oldest_keeps_newest(run.channel, items.last(), capacity, keys);
        let dropped = if all.len() > capacity {
            all.len() - capacity
        } else {
            0
        };
        assert(end.channel.queue =~= all.skip(dropped));
        assert(end.sent =~= start.sent + items);
    }
}

/// An open channel that blocks takes items until it is full, and no more.
pub proof fn law_block_takes_until_full<T, K: KeyOf<T>>(
    start: ChannelRun<T>,
    items: Seq<T>,
    next: T,
    capacity: usize,
    keys: K,
)
    requires
        start.channel.queue.len() + items.len() <= capacity,
        !start.channel.closed,
    ensures
        ({
            let end = start.then_steps(burst_of(items), capacity, OverflowPolicy::Block, keys);
            &&& !end.channel.closed
            &&& end.sent == start.sent + items
            &&& end.channel.queue == start.channel.queue + items
            &&& start.channel.queue.len() + items.len() == capacity ==> end.channel.offered(
                next,
                capacity,
                OverflowPolicy::Block,
                keys,
            ) == (end.channel, Err::<(), BoundedSendError<T>>(BoundedSendError::Full(next)))
        }),
    decreases items.len(),
{
    let policy = OverflowPolicy::Block;
    let end = start.then_steps(burst_of(items), capacity, policy, keys);
    if items.len() == 0 {
        assert(burst_of(items).len() == 0);
    } else {
        let front = items.drop_last();
        law_block_takes_until_full(start, front, next, capacity, keys);
        assert(burst_of(items).drop_last() =~= burst_of(front));
    }
    assert(end.channel.queue =~= start.channel.queue + items);
    assert(end.sent =~= start.sent + items);
}

/// A channel counts its senders and is closed by the last one that leaves, with all that it holds
/// kept; as long as another is there it stays as open as it was. One that joins opens nothing.
pub proof fn law_last_sender_closes<T>(channel: ChannelView<T>)
    ensures
        channel.senders > 1 ==> channel.left().senders == channel.senders - 1
            && channel.left().closed == channel.closed,
        channel.senders <= 1 ==> channel.left().senders == 0 && channel.left().closed,
        channel.left().queue == channel.queue,
        channel.senders < usize::MAX ==> channel.joined().senders == channel.senders + 1,
        channel.joined().closed == channel.closed,
        channel.joined().queue == channel.queue,
        channel.senders < usize::MAX && channel.senders > 0 ==> channel.joined().left().senders
            == channel.senders && channel.joined().left().closed == channel.closed,
{
}

/// An item is taken unless the channel is closed, or blocks and is full, and is then the newest one.
/// A task that asks for room has it just where an item would be taken for want of none, and waits
/// otherwise.
pub proof fn law_open_channel_takes_the_item<T, K: KeyOf<T>>(
    channel: ChannelView<T>,
    item: T,
    capacity: usize,
    policy: OverflowPolicy,
    keys: K,
    waker: Waker,
)
    ensures
        channel.offered(item, capacity, policy, keys).1 is Ok <==> !channel.closed && (policy
            is Block ==> channel.queue.len() < capacity),
        channel.offered(item, capacity, policy, keys).1 is Ok ==> channel.offered(
            item,
            capacity,
            policy,
            keys,
        ).0.queue.last() == item,
        channel.offered(item, capacity, policy, keys).0.senders == channel.senders,
        channel.offered(item, capacity, policy, keys).0.closed == channel.closed,
        channel.room_awaited(capacity, policy, waker).1 <==> (policy is Block
            ==> channel.queue.len() < capacity),
        !channel.room_awaited(capacity, policy, waker).1 ==> channel.room_awaited(
            capacity,
            policy,
            waker,
        ).0.sender == Some(waker),
        channel.room_awaited(capacity, policy, waker).0.queue == channel.queue,
{
}

/// A task that asks for an item gets the oldest one, is told that the channel is closed, or waits
/// for one; nothing is lost by asking.
pub proof fn law_poll_hands_out_or_waits<T>(channel: ChannelView<T>, waker: Waker)
    ensures
        ({
            let (after, found) = channel.polled(waker);
            &&& found is Item <==> channel.queue.len() > 0
            &&& found is Closed <==> channel.queue.len() == 0 && channel.closed
            &&& found is Pending <==> channel.queue.len() == 0 && !channel.closed
            &&& found matches Received::Item(item) ==> channel.queue == seq![item] + after.queue
            &&& found is Pending ==> after.receiver == Some(waker)
            &&& !(found is Item) ==> after.queue == channel.queue
            &&& after.closed == channel.closed
            &&& after.senders == channel.senders
        }),
{
    if channel.queue.len() > 0 {
        assert(channel.queue =~= seq![channel.queue[0]] + channel.queue.subrange(
            1,
            channel.queue.len() as int,
        ));
    }
}

/// There is no point in sending again just where the channel is closed; a full one may have room
/// later.
pub proof fn law_full_channel_may_be_tried_again<T>(item: T)
    ensures
        !BoundedSendError::Full(item).hopeless(),
        BoundedSendError::Closed(item).hopeless(),
{
}

} // verus!
