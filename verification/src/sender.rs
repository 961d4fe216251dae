//! Senders: unbounded ones, and ones that stop once nobody receives any more.

use crate::channel::{
    exchanged, woken, BoundedSendError, BoundedState, BoundedTx, KeyOf, Unrecoverable,
};
use vstd::prelude::*;

verus! {

/// Whether a value may be converted into this one.
pub open spec fn converts<Value: Into<Converted>, Converted>(
    value: Value,
    converted: Converted,
) -> bool {
    call_ensures(Value::into, (value,), converted)
}

/// An end of a channel that items are sent into.
pub trait Tx: Sized {
    type Item;

    type Error: Unrecoverable;

    /// Whether this end may answer an item like this.
    open spec fn may_answer(&self, item: Self::Item, answer: Result<(), Self::Error>) -> bool {
        arbitrary()
    }

    /// Converts an item and sends it.
    fn send<Item: Into<Self::Item>>(&self, item: Item) -> (result: Result<(), Self::Error>)
        ensures
            exists|converted: Self::Item|
                converts(item, converted) && #[trigger] self.may_answer(converted, result),
    ;
}

/// `tokio::sync::mpsc::UnboundedSender`.
#[verifier::external_type_specification]
#[verifier::external_body]
#[verifier::reject_recursive_types(T)]
pub struct ExUnboundedSender<T>(tokio::sync::mpsc::UnboundedSender<T>);

/// `tokio::sync::mpsc::UnboundedReceiver`.
#[verifier::external_type_specification]
#[verifier::external_body]
#[verifier::reject_recursive_types(T)]
pub struct ExUnboundedReceiver<T>(tokio::sync::mpsc::UnboundedReceiver<T>);

/// `tokio::sync::mpsc::UnboundedSender::send`: an item that nobody will receive comes back. It
/// depends on the receiver whether one does.
#[verifier::external_body]
fn send_unbounded<T>(tx: &tokio::sync::mpsc::UnboundedSender<T>, item: T) -> (result: Result<(), T>)
    ensures
        result matches Err(back) ==> back == item,
{
    match tx.send(item) {
        Ok(()) => Ok(()),
        Err(error) => Err(error.0),
    }
}

/// Whether a sender may be handed an item with this outcome.
pub closed spec fn handed<T>(
    tx: tokio::sync::mpsc::UnboundedSender<T>,
    item: T,
    outcome: Result<(), T>,
) -> bool {
    call_ensures(send_unbounded::<T>, (&tx, item), outcome)
}

/// `tokio::sync::mpsc::unbounded_channel`. Nothing is said of the two ends that it gives.
pub assume_specification<T>[ tokio::sync::mpsc::unbounded_channel::<T> ]() -> (ends: (
    tokio::sync::mpsc::UnboundedSender<T>,
    tokio::sync::mpsc::UnboundedReceiver<T>,
));

/// An item that nobody will receive. It is handed back.
#[derive(Debug, PartialEq, Eq)]
pub struct UnboundedSendError<T>(pub T);

impl<T> Unrecoverable for UnboundedSendError<T> {
    open spec fn hopeless(&self) -> bool {
        true
    }

    fn is_unrecoverable(&self) -> (result: bool) {
        true
    }
}

impl<T> UnboundedSendError<T> {
    /// What a sender answers, by what became of the item that it handed on.
    pub open spec fn answered(outcome: Result<(), T>) -> Result<(), UnboundedSendError<T>> {
        match outcome {
            Ok(()) => Ok(()),
            Err(back) => Err(UnboundedSendError(back)),
        }
    }

    /// What a sender answers, by what became of the item that it handed on.
    pub fn answer(outcome: Result<(), T>) -> (result: Result<(), UnboundedSendError<T>>)
        ensures
            result == Self::answered(outcome),
    {
        match outcome {
            Ok(()) => Ok(()),
            Err(back) => Err(UnboundedSendError(back)),
        }
    }
}

/// The sending end of an unbounded channel.
#[verifier::reject_recursive_types(T)]
pub struct UnboundedTx<T> {
    pub tx: tokio::sync::mpsc::UnboundedSender<T>,
}

/// The receiving end of an unbounded channel.
#[verifier::reject_recursive_types(T)]
pub struct UnboundedRx<T> {
    pub rx: tokio::sync::mpsc::UnboundedReceiver<T>,
}

impl<T> UnboundedTx<T> {
    /// The sending end around a sender.
    pub fn new(tx: tokio::sync::mpsc::UnboundedSender<T>) -> (result: UnboundedTx<T>)
        ensures
            result.tx == tx,
    {
        UnboundedTx { tx }
    }
}

impl<T> UnboundedRx<T> {
    /// The receiving end around a receiver.
    pub fn new(rx: tokio::sync::mpsc::UnboundedReceiver<T>) -> (result: UnboundedRx<T>)
        ensures
            result.rx == rx,
    {
        UnboundedRx { rx }
    }
}

impl<T> Tx for UnboundedTx<T> {
    type Item = T;

    type Error = UnboundedSendError<T>;

    open spec fn may_answer(&self, item: T, answer: Result<(), UnboundedSendError<T>>) -> bool {
        &&& answer matches Err(error) ==> error.0 == item
        &&& exists|outcome: Result<(), T>| #[trigger]
            handed(self.tx, item, outcome) && answer == UnboundedSendError::answered(outcome)
    }

    fn send<Item: Into<T>>(&self, item: Item) -> (result: Result<(), UnboundedSendError<T>>)
        ensures
            result matches Err(error) ==> call_ensures(Item::into, (item,), error.0),
    {
        let converted = item.into();
        let outcome = send_unbounded(&self.tx, converted);
        let result = UnboundedSendError::answer(outcome);
        assert(handed(self.tx, converted, outcome));
        assert(converts(item, converted) && self.may_answer(converted, result));
        result
    }
}

impl<T, K: KeyOf<T>> Tx for BoundedTx<T, K> {
    type Item = T;

    type Error = BoundedSendError<T>;

    open spec fn may_answer(&self, item: T, answer: Result<(), BoundedSendError<T>>) -> bool {
        exists|before: BoundedState<T>, after: BoundedState<T>|
            #[trigger] exchanged(&self.shared(), before, after) && before@.queue.len()
                <= self.room() && (after@, answer) == before@.offered(
                item,
                self.room(),
                self.overflow(),
                self.keys(),
            ) && (answer is Ok ==> woken(before@.receiver))
    }

    fn send<Item: Into<T>>(&self, item: Item) -> (result: Result<(), BoundedSendError<T>>)
        ensures
            result matches Err(BoundedSendError::Full(back)) ==> call_ensures(
                Item::into,
                (item,),
                back,
            ) && self.overflow() is Block,
            result matches Err(BoundedSendError::Closed(back)) ==> call_ensures(
                Item::into,
                (item,),
                back,
            ),
    {
        let converted = item.into();
        let result = self.try_send(converted);
        assert(converts(item, converted) && self.may_answer(converted, result));
        result
    }
}

/// Whether items are still sent.
#[derive(Debug, PartialEq, Eq)]
pub enum ChannelState<Tx> {
    Active(Tx),
    Disabled,
}

/// A sender that stops once nobody receives any more.
#[derive(Debug, PartialEq, Eq)]
pub struct ChannelTxDroppable<ChannelTx> {
    pub state: ChannelState<ChannelTx>,
}

impl<ChannelTx> ChannelTxDroppable<ChannelTx> {
    /// A sender that sends.
    pub fn new(tx: ChannelTx) -> (result: Self)
        ensures
            result.state == ChannelState::Active(tx),
    {
        ChannelTxDroppable { state: ChannelState::Active(tx) }
    }

    /// A sender that has stopped.
    pub fn new_disabled() -> (result: Self)
        ensures
            result.state == ChannelState::<ChannelTx>::Disabled,
    {
        ChannelTxDroppable { state: ChannelState::Disabled }
    }

    /// Stops.
    pub fn disable(&mut self)
        ensures
            final(self).state == ChannelState::<ChannelTx>::Disabled,
    {
        self.state = ChannelState::Disabled;
    }

    /// Takes in whether an item was sent: stops where it was not.
    pub fn after_send(&mut self, sent: bool)
        ensures
            *final(self) == (if sent {
                *old(self)
            } else {
                ChannelTxDroppable { state: ChannelState::Disabled }
            }),
    {
        if !sent {
            self.state = ChannelState::Disabled;
        }
    }
}

impl<ChannelTx: Tx> ChannelTxDroppable<ChannelTx> {
    /// Sends an item, if items are still sent, and stops if nobody receives it.
    pub fn send(&mut self, item: ChannelTx::Item)
        ensures
            *final(self) == *old(self) || final(self).state == ChannelState::<ChannelTx>::Disabled,
            old(self).state is Disabled ==> *final(self) == *old(self),
            old(self).state matches ChannelState::Active(tx) ==> exists|
                converted: ChannelTx::Item,
                answer: Result<(), ChannelTx::Error>,
            |
                converts(item, converted) && #[trigger] tx.may_answer(converted, answer) && *final(self)
                    == (if answer is Ok {
                    *old(self)
                } else {
                    ChannelTxDroppable { state: ChannelState::Disabled }
                }),
    {
        let sent = match &self.state {
            ChannelState::Active(tx) => tx.send(item).is_ok(),
            ChannelState::Disabled => true,
        };
        self.after_send(sent);
    }
}

/// Both ends of an unbounded channel.
#[verifier::reject_recursive_types(T)]
pub struct Channel<T> {
    pub tx: UnboundedTx<T>,
    pub rx: UnboundedRx<T>,
}

impl<T> Channel<T> {
    /// A new unbounded channel.
    pub fn new() -> (result: Channel<T>)
        ensures
            of_one_channel(result.tx, result.rx),
    {
        let (tx, rx) = mpsc_unbounded();
        Channel { tx, rx }
    }
}

impl<T> Default for Channel<T> {
    fn default() -> (result: Channel<T>)
        ensures
            of_one_channel(result.tx, result.rx),
    {
        Channel::new()
    }
}

/// Whether two ends may be those of one new channel.
pub open spec fn of_one_channel<T>(tx: UnboundedTx<T>, rx: UnboundedRx<T>) -> bool {
    call_ensures(tokio::sync::mpsc::unbounded_channel::<T>, (), (tx.tx, rx.rx))
}

/// A new unbounded channel.
pub fn mpsc_unbounded<T>() -> (result: (UnboundedTx<T>, UnboundedRx<T>))
    ensures
        of_one_channel(result.0, result.1),
{
    let (tx, rx) = tokio::sync::mpsc::unbounded_channel();
    (UnboundedTx::new(tx), UnboundedRx::new(rx))
}

/// A sender hands back an item that nobody will receive, and there is no point in sending it again.
pub proof fn law_item_nobody_receives_comes_back<T>(item: T)
    ensures
        UnboundedSendError::answered(Err(item)) matches Err(error) && error.0 == item
            && error.hopeless(),
        UnboundedSendError::<T>::answered(Ok(())) is Ok,
{
}

} // verus!
