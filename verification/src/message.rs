//! Messages: deferred units of work addressed to a world.

use crate::bundle::Bundle;
use crate::error::ExecError;
use crate::identity::WorldIdentifier;
use crate::value::{Value, ValueView};
use vstd::prelude::*;

verus! {

/// The work that a message asks of the world that executes it.
#[derive(Debug)]
pub enum Payload {
    /// Create an entity that bears `bundle`.
    Spawn { bundle: Bundle },
    /// Attach `bundle` to `entity`.
    Insert { entity: u64, bundle: Bundle },
    /// Copy the components of `kinds` that `entity` bears and have `destination` spawn
    /// them as a new entity.
    CloneQuery { entity: u64, kinds: Vec<u64>, destination: WorldIdentifier },
    /// Copy the one component of `kind` that `entity` bears and have `destination`
    /// spawn it as a new entity.
    CopyComponent { entity: u64, kind: u64, destination: WorldIdentifier },
    /// Take the component of `kind` away from every entity whose component of
    /// `key_kind` equals `key`, and have `destination` attach each to `entity`.
    MoveComponent { key_kind: u64, key: Value, kind: u64, entity: u64, destination: WorldIdentifier },
}

/// What a [`Payload`] stands for in specifications.
pub enum PayloadView {
    Spawn { bundle: Map<u64, ValueView> },
    Insert { entity: u64, bundle: Map<u64, ValueView> },
    CloneQuery { entity: u64, kinds: Seq<u64>, destination: WorldIdentifier },
    CopyComponent { entity: u64, kind: u64, destination: WorldIdentifier },
    MoveComponent {
        key_kind: u64,
        key: ValueView,
        kind: u64,
        entity: u64,
        destination: WorldIdentifier,
    },
}

impl View for Payload {
    type V = PayloadView;

    open spec fn view(&self) -> PayloadView {
        match self {
            Payload::Spawn { bundle } => PayloadView::Spawn { bundle: bundle@ },
            Payload::Insert { entity, bundle } => PayloadView::Insert {
                entity: *entity,
                bundle: bundle@,
            },
            Payload::CloneQuery { entity, kinds, destination } => PayloadView::CloneQuery {
                entity: *entity,
                kinds: kinds@,
                destination: *destination,
            },
            Payload::CopyComponent { entity, kind, destination } => PayloadView::CopyComponent {
                entity: *entity,
                kind: *kind,
                destination: *destination,
            },
            Payload::MoveComponent {
                key_kind,
                key,
                kind,
                entity,
                destination,
            } => PayloadView::MoveComponent {
                key_kind: *key_kind,
                key: key@,
                kind: *kind,
                entity: *entity,
                destination: *destination,
            },
        }
    }
}

/// What a [`WorldMessage`] stands for in specifications.
pub struct MessageView {
    /// The world that sent the message, once a router has stamped it.
    pub sender: Option<WorldIdentifier>,
    /// The world that the message is for.
    pub receiver: WorldIdentifier,
    pub payload: PayloadView,
}

/// The message that a world writes to have `receiver` carry out `payload`.
pub open spec fn addressed(receiver: WorldIdentifier, payload: PayloadView) -> MessageView {
    MessageView { sender: None, receiver, payload }
}

/// The reply to `m` that asks for `payload`: it goes to the world that sent `m`. A
/// message that was not delivered has none.
pub open spec fn reply_to(m: MessageView, payload: PayloadView) -> Option<MessageView> {
    match m.sender {
        Some(origin) => Some(addressed(origin, payload)),
        None => None,
    }
}

/// The message `m` as it leaves the router that took it from the channel of `source`.
pub open spec fn stamped(m: MessageView, source: WorldIdentifier) -> MessageView {
    MessageView { sender: Some(source), receiver: m.receiver, payload: m.payload }
}

/// A message between worlds.
///
/// The sender is absent until a router has forwarded the message; only the router
/// sets it.
#[derive(Debug)]
pub struct WorldMessage {
    sender: Option<WorldIdentifier>,
    receiver: WorldIdentifier,
    message: Payload,
}

impl View for WorldMessage {
    type V = MessageView;

    closed spec fn view(&self) -> MessageView {
        MessageView { sender: self.sender, receiver: self.receiver, payload: self.message@ }
    }
}

impl WorldMessage {
    /// The world that sent this message. Only a delivered message has one.
    pub fn sender(&self) -> (r: WorldIdentifier)
        requires
            self@.sender is Some,
        ensures
            Some(r) == self@.sender,
    {
        self.sender.unwrap()
    }

    /// The world that sent this message, if a router has stamped it.
    pub fn source(&self) -> (r: Option<WorldIdentifier>)
        ensures
            r == self@.sender,
    {
        self.sender
    }

    /// The world that this message is for.
    pub fn receiver(&self) -> (r: WorldIdentifier)
        ensures
            r == self@.receiver,
    {
        self.receiver
    }

    /// Hands out the payload and ends the message.
    pub fn message(self) -> (r: Payload)
        ensures
            r@ == self@.payload,
    {
        self.message
    }

    /// A message for world `receiver` that asks for `message`. It has no sender yet.
    pub fn to(receiver: WorldIdentifier, message: Payload) -> (r: WorldMessage)
        ensures
            r@ == addressed(receiver, message@),
    {
        WorldMessage { sender: None, receiver, message }
    }

    /// A message that asks for `message` and goes back to the world that sent this one.
    ///
    /// Only a delivered message can be replied to.
    pub fn reply(&self, message: Payload) -> (r: Result<WorldMessage, ExecError>)
        ensures
            match r {
                Ok(answer) => reply_to(self@, message@) == Some(answer@),
                Err(error) => reply_to(self@, message@) is None && error == ExecError::NotDelivered,
            },
    {
        match self.sender {
            Some(origin) => Ok(WorldMessage { sender: None, receiver: origin, message }),
            None => Err(ExecError::NotDelivered),
        }
    }

    /// This message with `source` as its sender: the router's stamp.
    pub(crate) fn stamp(self, source: WorldIdentifier) -> (r: WorldMessage)
        ensures
            r@ == stamped(self@, source),
    {
        WorldMessage { sender: Some(source), receiver: self.receiver, message: self.message }
    }
}

} // verus!
