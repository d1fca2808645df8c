//! The exchange: the registry of channels, and the router that forwards between them.
//!
//! An exchange is built first: each world registers once and gets its end of a new
//! channel. Starting the exchange turns it into a [`Router`], which has no way to
//! register anything: the set of destinations is then fixed.

use crate::channel::{select_recv, WorldChannel};
use crate::error::RecvError;
use crate::identity::WorldIdentifier;
use crate::message::{stamped, MessageView, WorldMessage};
use vstd::prelude::*;

verus! {

/// The identifiers of a list of registered channels, in the order of registration.
pub open spec fn identifiers(entries: Seq<(WorldIdentifier, WorldChannel)>) -> Seq<
    WorldIdentifier,
> {
    entries.map_values(|entry: (WorldIdentifier, WorldChannel)| entry.0)
}

/// What the router makes of a message that it took from the channel of `source`: the
/// stamped message, which goes to the channel of its receiver, or nothing where the
/// receiver is not registered.
pub open spec fn routing(
    registry: Seq<WorldIdentifier>,
    source: WorldIdentifier,
    m: MessageView,
) -> Option<MessageView> {
    if registry.contains(m.receiver) {
        Some(stamped(m, source))
    } else {
        None
    }
}

/// The position of `id` among `entries`, if it is registered.
fn position(entries: &Vec<(WorldIdentifier, WorldChannel)>, id: WorldIdentifier) -> (r: Option<
    usize,
>)
    ensures
        match r {
            Some(at) => at < entries.len() && identifiers(entries@)[at as int] == id,
            None => !identifiers(entries@).contains(id),
        },
{
    let mut i: usize = 0;
    while i < entries.len()
        invariant
            i <= entries.len(),
            forall|j: int| 0 <= j < i ==> identifiers(entries@)[j] != id,
        decreases entries.len() - i,
    {
        if entries[i].0 == id {
            return Some(i);
        }
        i += 1;
    }
    None
}

/// The registry while it is being built.
pub struct WorldExchange {
    channels: Vec<(WorldIdentifier, WorldChannel)>,
}

impl WorldExchange {
    #[verifier::type_invariant]
    spec fn each_world_once(&self) -> bool {
        identifiers(self.channels@).no_duplicates()
    }

    /// The registered identifiers, in the order of registration.
    pub closed spec fn registry(&self) -> Seq<WorldIdentifier> {
        identifiers(self.channels@)
    }

    /// The exchange with no world registered.
    pub fn new() -> (r: WorldExchange)
        ensures
            r.registry() == Seq::<WorldIdentifier>::empty(),
    {
        let r = WorldExchange { channels: Vec::new() };
        assert(r.registry() =~= Seq::<WorldIdentifier>::empty());
        r
    }

    /// Whether world `id` is registered.
    pub fn is_registered(&self, id: WorldIdentifier) -> (r: bool)
        ensures
            r == self.registry().contains(id),
    {
        position(&self.channels, id).is_some()
    }

    /// Registers world `id` and returns the world's end of its new channel.
    ///
    /// A world registers once.
    pub fn create_channel(&mut self, id: WorldIdentifier) -> (r: WorldChannel)
        requires
            !old(self).registry().contains(id),
        ensures
            final(self).registry() == old(self).registry().push(id),
            final(self).registry().no_duplicates(),
    {
        let (ours, theirs) = WorldChannel::pair();
        let mut building = WorldExchange::new();
        std::mem::swap(self, &mut building);
        proof {
            use_type_invariant(&building);
        }
        let mut channels = building.channels;
        proof {
            assert(identifiers(channels@.push((id, ours))) =~= identifiers(channels@).push(id));
            lemma_push_fresh(identifiers(channels@), id);
        }
        channels.push((id, ours));
        *self = WorldExchange { channels };
        theirs
    }

    /// Starts the exchange: the registry is handed to a router and closed.
    pub fn spawn(self) -> (r: Router)
        ensures
            r.registry() == self.registry(),
            r.registry().no_duplicates(),
    {
        proof {
            use_type_invariant(&self);
        }
        Router { channels: self.channels }
    }
}

impl Default for WorldExchange {
    fn default() -> (r: WorldExchange)
        ensures
            r.registry() == Seq::<WorldIdentifier>::empty(),
    {
        WorldExchange::new()
    }
}

/// A message that names a world that is not registered. The router hands it back,
/// stamped, and delivers it nowhere.
#[derive(Debug)]
pub struct RoutingFailure {
    pub message: WorldMessage,
}

/// What became of one turn of the router.
#[derive(Debug)]
pub enum RouteOutcome {
    /// A message from `source` was put on the queue of `destination`.
    Delivered { source: WorldIdentifier, destination: WorldIdentifier },
    /// A message named a destination that is not registered.
    Unroutable { failure: RoutingFailure },
    /// The channel of `source` has lost its world and is empty.
    Closed { source: WorldIdentifier },
    /// The world of `destination` is gone; the message from `source` comes back.
    Undeliverable { source: WorldIdentifier, destination: WorldIdentifier, message: WorldMessage },
    /// No world is registered, so there is nothing to wait for.
    Idle,
}

/// The running exchange: a closed registry, and the forwarding between its channels.
pub struct Router {
    channels: Vec<(WorldIdentifier, WorldChannel)>,
}

impl Router {
    #[verifier::type_invariant]
    spec fn each_world_once(&self) -> bool {
        identifiers(self.channels@).no_duplicates()
    }

    /// The registered identifiers, in the order of registration.
    pub closed spec fn registry(&self) -> Seq<WorldIdentifier> {
        identifiers(self.channels@)
    }

    /// The number of registered worlds.
    pub fn len(&self) -> (r: usize)
        ensures
            r == self.registry().len(),
    {
        self.channels.len()
    }

    /// The position of world `id` in the registry, if it is registered.
    pub fn lookup(&self, id: WorldIdentifier) -> (r: Option<usize>)
        ensures
            self.registry().no_duplicates(),
            match r {
                Some(at) => at < self.registry().len() && self.registry()[at as int] == id,
                None => !self.registry().contains(id),
            },
    {
        proof {
            use_type_invariant(self);
        }
        position(&self.channels, id)
    }

    /// Decides where a message goes that came from the channel at position `from`: it
    /// is stamped with that channel's world and belongs on the channel of its
    /// destination, at the position returned. A destination that is not registered
    /// is a routing failure.
    pub fn route(&self, from: usize, message: WorldMessage) -> (r: Result<
        (usize, WorldMessage),
        RoutingFailure,
    >)
        requires
            from < self.registry().len(),
        ensures
            self.registry().no_duplicates(),
            match r {
                Ok((to, out)) => {
                    &&& to < self.registry().len()
                    &&& self.registry()[to as int] == message@.receiver
                    &&& routing(self.registry(), self.registry()[from as int], message@) == Some(
                        out@,
                    )
                },
                Err(failure) => {
                    &&& routing(self.registry(), self.registry()[from as int], message@) is None
                    &&& failure.message@ == stamped(message@, self.registry()[from as int])
                },
            },
    {
        proof {
            use_type_invariant(self);
        }
        let source = self.channels[from].0;
        let out = message.stamp(source);
        match position(&self.channels, out.receiver()) {
            Some(to) => Ok((to, out)),
            None => Err(RoutingFailure { message: out }),
        }
    }

    /// Forwards a message that came from the channel at position `from`.
    pub fn forward(&self, from: usize, message: WorldMessage) -> (r: RouteOutcome)
        requires
            from < self.registry().len(),
        ensures
            match r {
                RouteOutcome::Delivered { source, destination } => {
                    &&& source == self.registry()[from as int]
                    &&& destination == message@.receiver
                    &&& self.registry().contains(destination)
                },
                RouteOutcome::Undeliverable { source, destination, message: returned } => {
                    &&& source == self.registry()[from as int]
                    &&& destination == message@.receiver
                    &&& self.registry().contains(destination)
                    &&& returned@ == stamped(message@, source)
                },
                RouteOutcome::Unroutable { failure } => {
                    &&& !self.registry().contains(message@.receiver)
                    &&& failure.message@ == stamped(message@, self.registry()[from as int])
                },
                RouteOutcome::Closed { source } => false,
                RouteOutcome::Idle => false,
            },
    {
        let source = self.channels[from].0;
        match self.route(from, message) {
            Ok((to, out)) => {
                let destination = self.channels[to].0;
                match self.channels[to].1.send(out) {
                    Ok(()) => RouteOutcome::Delivered { source, destination },
                    Err(error) => RouteOutcome::Undeliverable {
                        source,
                        destination,
                        message: error.message,
                    },
                }
            },
            Err(failure) => RouteOutcome::Unroutable { failure },
        }
    }

    /// One turn of the router: waits until a registered channel has a message, takes
    /// that one message, and forwards it.
    pub fn step(&self) -> (r: RouteOutcome)
        ensures
            r is Idle <==> self.registry().len() == 0,
            match r {
                RouteOutcome::Delivered { source, destination } => self.registry().contains(source)
                    && self.registry().contains(destination),
                RouteOutcome::Undeliverable { source, destination, message } => {
                    &&& self.registry().contains(source)
                    &&& self.registry().contains(destination)
                    &&& message@.sender == Some(source)
                    &&& message@.receiver == destination
                },
                RouteOutcome::Unroutable { failure } => {
                    &&& failure.message@.sender is Some
                    &&& self.registry().contains(failure.message@.sender->0)
                    &&& !self.registry().contains(failure.message@.receiver)
                },
                RouteOutcome::Closed { source } => self.registry().contains(source),
                RouteOutcome::Idle => true,
            },
    {
        if self.channels.len() == 0 {
            return RouteOutcome::Idle;
        }
        let (from, received) = select_recv(&self.channels);
        match received {
            Ok(message) => self.forward(from, message),
            Err(RecvError) => RouteOutcome::Closed { source: self.channels[from].0 },
        }
    }
}

/// A sequence without duplicates stays so when an element that it lacks is appended.
proof fn lemma_push_fresh(s: Seq<WorldIdentifier>, id: WorldIdentifier)
    requires
        s.no_duplicates(),
        !s.contains(id),
    ensures
        s.push(id).no_duplicates(),
{
    assert forall|i: int, j: int|
        0 <= i < s.push(id).len() && 0 <= j < s.push(id).len() && i != j implies s.push(id)[i]
        != s.push(id)[j] by {
        if i < s.len() && j < s.len() {
        } else if i < s.len() {
            assert(s.contains(s[i]));
        } else {
            assert(s.contains(s[j]));
        }
    }
}

} // verus!
