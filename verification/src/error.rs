//! Failures of channels and of payload execution.

use crate::message::WorldMessage;
use vstd::prelude::*;

verus! {

/// Why a payload could not be carried out. The payload's worker gets it back as a value
/// and decides what to do.
#[derive(Clone, Copy, Debug, PartialEq, Eq, Structural)]
pub enum ExecError {
    /// The entity that the payload names is not in the world.
    NoSuchEntity,
    /// The entity lacks a component that the payload reads.
    MissingComponent,
    /// A reply was asked of a message that no router has stamped yet.
    NotDelivered,
    /// The world holds as many entities as it can.
    WorldFull,
    /// The worker's channel has lost its peer.
    Disconnected,
}

/// A message could not be sent because the channel's peer is gone. The message comes
/// back.
#[derive(Debug)]
pub struct SendError {
    pub message: WorldMessage,
}

/// A message could not be sent without blocking. The message comes back.
#[derive(Debug)]
pub enum TrySendError {
    /// The queue cannot take another message now.
    Full(WorldMessage),
    /// The channel's peer is gone.
    Disconnected(WorldMessage),
}

/// The channel is empty and its peer is gone.
#[derive(Clone, Copy, Debug, PartialEq, Eq, Structural)]
pub struct RecvError;

/// No message could be taken without blocking.
#[derive(Clone, Copy, Debug, PartialEq, Eq, Structural)]
pub enum TryRecvError {
    /// No message is waiting.
    Empty,
    /// No message is waiting and the channel's peer is gone.
    Disconnected,
}

} // verus!
