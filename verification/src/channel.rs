//! Channels: the two queues that tie one world to the exchange.
//!
//! A channel is a pair of unbounded `crossbeam_channel` queues. The world holds one
//! end of both, the exchange the other: what the world sends, the exchange receives,
//! and the other way round. The queues are shared between threads, so what a receive
//! returns is for the threads to decide; the contracts here say what holds whoever
//! ran first.

use crate::error::{RecvError, SendError, TryRecvError, TrySendError};
use crate::identity::WorldIdentifier;
use crate::message::{addressed, Payload, WorldMessage};
use vstd::prelude::*;

verus! {

/// `crossbeam_channel::Sender`, which Verus carries through without looking inside.
#[verifier::external_type_specification]
#[verifier::external_body]
#[verifier::reject_recursive_types(T)]
pub struct ExSender<T>(crossbeam_channel::Sender<T>);

/// `crossbeam_channel::Receiver`, which Verus carries through without looking inside.
#[verifier::external_type_specification]
#[verifier::external_body]
#[verifier::reject_recursive_types(T)]
pub struct ExReceiver<T>(crossbeam_channel::Receiver<T>);

/// `crossbeam_channel::unbounded`: the two ends of a new queue. Nothing is claimed of
/// them.
pub assume_specification<T>[ crossbeam_channel::unbounded::<T> ]() -> (ends: (
    crossbeam_channel::Sender<T>,
    crossbeam_channel::Receiver<T>,
));

/// `Sender::send`: on failure the error holds the message that was to be sent.
#[verifier::external_body]
fn sender_send(tx: &crossbeam_channel::Sender<WorldMessage>, message: WorldMessage) -> (r: Result<
    (),
    SendError,
>)
    ensures
        r matches Err(error) ==> error.message == message,
{
    tx.send(message).map_err(|error| SendError { message: error.0 })
}

/// `Sender::try_send`: on failure the error holds the message that was to be sent.
#[verifier::external_body]
fn sender_try_send(tx: &crossbeam_channel::Sender<WorldMessage>, message: WorldMessage) -> (r:
    Result<(), TrySendError>)
    ensures
        r matches Err(TrySendError::Full(returned)) ==> returned == message,
        r matches Err(TrySendError::Disconnected(returned)) ==> returned == message,
{
    tx.try_send(message).map_err(
        |error|
            match error {
                crossbeam_channel::TrySendError::Full(message) => TrySendError::Full(message),
                crossbeam_channel::TrySendError::Disconnected(message) => TrySendError::Disconnected(
                    message,
                ),
            },
    )
}

/// `Receiver::recv`: blocks for the next message. Which message comes is for the
/// senders to decide.
#[verifier::external_body]
fn receiver_recv(rx: &crossbeam_channel::Receiver<WorldMessage>) -> (r: Result<
    WorldMessage,
    RecvError,
>) {
    rx.recv().map_err(|_error| RecvError)
}

/// `Receiver::try_recv`: the next message if one is waiting.
#[verifier::external_body]
fn receiver_try_recv(rx: &crossbeam_channel::Receiver<WorldMessage>) -> (r: Result<
    WorldMessage,
    TryRecvError,
>) {
    rx.try_recv().map_err(
        |error|
            match error {
                crossbeam_channel::TryRecvError::Empty => TryRecvError::Empty,
                crossbeam_channel::TryRecvError::Disconnected => TryRecvError::Disconnected,
            },
    )
}

/// `Select::select` over the receiving ends of `channels`, in their order, then
/// `SelectedOperation::recv` on the one that was chosen: blocks until one of the
/// channels is ready, and returns its position with what it gave. `crossbeam_channel`
/// picks at random among channels that are ready together. It panics on an empty list.
#[verifier::external_body]
pub(crate) fn select_recv(channels: &Vec<(WorldIdentifier, WorldChannel)>) -> (r: (
    usize,
    Result<WorldMessage, RecvError>,
))
    requires
        channels.len() > 0,
    ensures
        r.0 < channels.len(),
{
    let mut select = crossbeam_channel::Select::new();
    for channel in channels.iter() {
        select.recv(&channel.1.rx);
    }
    let ready = select.select();
    let index = ready.index();
    (index, ready.recv(&channels[index].1.rx).map_err(|_error| RecvError))
}

/// One end of a world's channel: a queue to send on and a queue to receive from.
pub struct WorldChannel {
    tx: crossbeam_channel::Sender<WorldMessage>,
    rx: crossbeam_channel::Receiver<WorldMessage>,
}

impl WorldChannel {
    /// The two ends of a new channel: what one sends, the other receives.
    pub fn pair() -> (ends: (WorldChannel, WorldChannel)) {
        let (left_tx, right_rx) = crossbeam_channel::unbounded();
        let (right_tx, left_rx) = crossbeam_channel::unbounded();
        (WorldChannel { tx: left_tx, rx: left_rx }, WorldChannel { tx: right_tx, rx: right_rx })
    }

    /// The queue that this end sends on, in specifications.
    pub closed spec fn sending(&self) -> crossbeam_channel::Sender<WorldMessage> {
        self.tx
    }

    /// The queue that this end receives from, in specifications.
    pub closed spec fn receiving(&self) -> crossbeam_channel::Receiver<WorldMessage> {
        self.rx
    }

    /// The queue that this end sends on.
    pub fn tx(&self) -> (r: &crossbeam_channel::Sender<WorldMessage>)
        ensures
            *r == self.sending(),
    {
        &self.tx
    }

    /// The queue that this end receives from.
    pub fn rx(&self) -> (r: &crossbeam_channel::Receiver<WorldMessage>)
        ensures
            *r == self.receiving(),
    {
        &self.rx
    }

    /// Puts `message` on the queue. Fails only when the other end is gone, and then
    /// hands the message back.
    pub fn send(&self, message: WorldMessage) -> (r: Result<(), SendError>)
        ensures
            r matches Err(error) ==> error.message == message,
    {
        sender_send(&self.tx, message)
    }

    /// Puts `message` on the queue without blocking. On failure the message comes back.
    pub fn try_send(&self, message: WorldMessage) -> (r: Result<(), TrySendError>)
        ensures
            r matches Err(TrySendError::Full(returned)) ==> returned == message,
            r matches Err(TrySendError::Disconnected(returned)) ==> returned == message,
    {
        sender_try_send(&self.tx, message)
    }

    /// Waits for the next message. Fails when the queue is empty and the other end is
    /// gone.
    pub fn recv(&self) -> (r: Result<WorldMessage, RecvError>) {
        receiver_recv(&self.rx)
    }

    /// The next message if one is waiting.
    pub fn try_recv(&self) -> (r: Result<WorldMessage, TryRecvError>) {
        receiver_try_recv(&self.rx)
    }
}

/// Sending a payload to a world that is named on the spot.
pub trait SendTo {
    /// Sends `message` to world `receiver`.
    fn send_to(&self, receiver: WorldIdentifier, message: Payload) -> (r: Result<(), SendError>)
        ensures
            r matches Err(error) ==> error.message@ == addressed(receiver, message@),
    ;

    /// Sends `message` to world `receiver` without blocking.
    fn try_send_to(&self, receiver: WorldIdentifier, message: Payload) -> (r: Result<
        (),
        TrySendError,
    >)
        ensures
            r matches Err(TrySendError::Full(returned)) ==> returned@ == addressed(
                receiver,
                message@,
            ),
            r matches Err(TrySendError::Disconnected(returned)) ==> returned@ == addressed(
                receiver,
                message@,
            ),
    ;
}

impl SendTo for WorldChannel {
    fn send_to(&self, receiver: WorldIdentifier, message: Payload) -> (r: Result<(), SendError>) {
        self.send(WorldMessage::to(receiver, message))
    }

    fn try_send_to(&self, receiver: WorldIdentifier, message: Payload) -> (r: Result<
        (),
        TrySendError,
    >) {
        self.try_send(WorldMessage::to(receiver, message))
    }
}

} // verus!
