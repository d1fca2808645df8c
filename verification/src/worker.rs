//! The worker's side: executing the messages that arrive on a world's channel.

use crate::channel::WorldChannel;
use crate::error::{ExecError, RecvError, TryRecvError};
use crate::message::{MessageView, Payload, PayloadView, WorldMessage};
use crate::transfer::{effect, failure, keeps_entities, lemma_effect_keeps_entities, message_views};
use crate::world::{world_entities, WorldView};
use vstd::prelude::*;

verus! {

/// Lifting a value into the result of executing a payload.
pub trait Lift {
    type To;

    fn lift(self) -> Self::To;
}

impl Lift for () {
    type To = Result<(), ExecError>;

    /// Nothing went wrong.
    fn lift(self) -> (r: Result<(), ExecError>)
        ensures
            r == Ok::<(), ExecError>(()),
    {
        Ok(())
    }
}

/// Sends `outgoing` on `channel`, in order, and stops at the first message that the
/// channel does not take.
pub fn send_all(channel: &WorldChannel, outgoing: Vec<WorldMessage>) -> (r: Result<(), ExecError>)
    ensures
        r matches Err(error) ==> error == ExecError::Disconnected && outgoing.len() > 0,
{
    let mut outgoing = outgoing;
    let ghost total = outgoing.len();
    let mut failed = false;
    while outgoing.len() > 0 && !failed
        invariant
            outgoing.len() <= total,
            failed ==> total > 0,
        decreases outgoing.len() + (if failed { 0int } else { 1int }),
    {
        let message = outgoing.remove(0);
        if channel.send(message).is_err() {
            failed = true;
        }
    }
    if failed {
        Err(ExecError::Disconnected)
    } else {
        Ok(())
    }
}

/// A payload that does not fail has its effect on the world and hands out messages;
/// where it hands out none, no channel can make it fail.
pub open spec fn carried_out(
    payload: PayloadView,
    before: WorldView,
    after: WorldView,
    r: Result<(), ExecError>,
) -> bool {
    exists|outgoing: Seq<MessageView>| #[trigger]
        effect(payload, before, after, outgoing) && (outgoing.len() == 0 ==> r is Ok)
}

/// What executing `payload` for a worker makes of a world, and what comes back.
///
/// A payload that fails gives its failure and leaves the world as it was. One that
/// does not fail has its effect; the result then is success, or `Disconnected` where
/// the channel did not take what the payload handed out.
pub open spec fn executed(
    payload: PayloadView,
    before: WorldView,
    after: WorldView,
    r: Result<(), ExecError>,
) -> bool {
    match failure(payload, before) {
        Some(error) => r == Err::<(), ExecError>(error) && after == before,
        None => {
            &&& r is Ok || r == Err::<(), ExecError>(ExecError::Disconnected)
            &&& carried_out(payload, before, after, r)
        },
    }
}

/// What a worker makes of what it waited for: the payload that came is executed, and
/// a channel that gave none is reported, with the world as it was.
pub open spec fn handled(
    received: Option<PayloadView>,
    before: WorldView,
    after: WorldView,
    r: Result<(), ExecError>,
) -> bool {
    match received {
        Some(payload) => executed(payload, before, after, r),
        None => r == Err::<(), ExecError>(ExecError::Disconnected) && after == before,
    }
}

/// `worlds` are the worlds that executing `payloads` leads through, one after the
/// other and each with success: the first is the world before, and each payload makes
/// the next of the one it finds.
pub open spec fn ran(payloads: Seq<PayloadView>, worlds: Seq<WorldView>) -> bool {
    &&& worlds.len() == payloads.len() + 1
    &&& forall|i: int|
        0 <= i < payloads.len() ==> executed(
            #[trigger] payloads[i],
            worlds[i],
            worlds[i + 1],
            Ok(()),
        )
}

/// How handling the waiting messages ends in world `last`: with success and the world
/// as it is, when no message is left; with `Disconnected` and the world as it is, when
/// the channel has lost its peer; or with the payload that did not succeed.
pub open spec fn ended(last: WorldView, after: WorldView, r: Result<(), ExecError>) -> bool {
    match r {
        Ok(_) => after == last,
        Err(error) => (error == ExecError::Disconnected && after == last) || exists|
            payload: PayloadView,
        | #[trigger] executed(payload, last, after, r),
    }
}

/// What handling the waiting messages makes of a world: some payloads are executed one
/// after the other, each with success, and then the handling ends.
pub open spec fn drained(before: WorldView, after: WorldView, r: Result<(), ExecError>) -> bool {
    exists|payloads: Seq<PayloadView>, worlds: Seq<WorldView>| #[trigger]
        ran(payloads, worlds) && worlds.first() == before && ended(worlds.last(), after, r)
}

/// The payload of what a blocking receive gave, if it gave a message.
pub open spec fn arrived(received: Result<WorldMessage, RecvError>) -> Option<PayloadView> {
    match received {
        Ok(message) => Some(message@.payload),
        Err(_) => None,
    }
}

impl Payload {
    /// Executes the payload for a worker: carries it out in `world` and sends the
    /// messages that it hands out on the worker's own `channel`.
    ///
    /// A payload that fails leaves the world as it was and sends nothing. One that
    /// does not fail has its effect on the world whether or not the channel takes the
    /// messages; where the channel has lost its peer, the result says so.
    pub fn run(self, world: &mut hecs::World, channel: &WorldChannel) -> (r: Result<(), ExecError>)
        ensures
            keeps_entities(world_entities(*old(world)), world_entities(*final(world))),
            executed(self@, world_entities(*old(world)), world_entities(*final(world)), r),
    {
        match self.apply(world) {
            Ok(outgoing) => {
                let ghost handed = outgoing@;
                let sent = send_all(channel, outgoing);
                proof {
                    lemma_effect_keeps_entities(
                        self@,
                        world_entities(*old(world)),
                        world_entities(*world),
                        message_views(handed),
                    );
                    assert(message_views(handed).len() == handed.len());
                }
                sent
            },
            Err(error) => Err(error),
        }
    }
}

/// Handles what a worker waited for: executes the payload of the message that came, or
/// reports that the channel gave none.
pub fn handle_received(
    received: Result<WorldMessage, RecvError>,
    world: &mut hecs::World,
    channel: &WorldChannel,
) -> (r: Result<(), ExecError>)
    ensures
        keeps_entities(world_entities(*old(world)), world_entities(*final(world))),
        handled(arrived(received), world_entities(*old(world)), world_entities(*final(world)), r),
{
    match received {
        Ok(message) => message.message().run(world, channel),
        Err(_) => Err(ExecError::Disconnected),
    }
}

/// Handles what a worker found waiting, or did not find: executes the payload of the
/// message that was there, and says whether the worker is to look again (nothing is
/// returned then) or how its turn ends.
///
/// The worker looks again after a payload that succeeded. Its turn ends with success
/// when nothing waits, with `Disconnected` when the channel has lost its peer, and
/// with the failure of a payload that did not succeed.
pub fn handle_polled(
    received: Result<WorldMessage, TryRecvError>,
    world: &mut hecs::World,
    channel: &WorldChannel,
) -> (r: Option<Result<(), ExecError>>)
    ensures
        keeps_entities(world_entities(*old(world)), world_entities(*final(world))),
        match received {
            Ok(message) => match r {
                None => executed(
                    message@.payload,
                    world_entities(*old(world)),
                    world_entities(*final(world)),
                    Ok(()),
                ),
                Some(end) => end is Err && executed(
                    message@.payload,
                    world_entities(*old(world)),
                    world_entities(*final(world)),
                    end,
                ),
            },
            Err(TryRecvError::Empty) => r == Some(Ok::<(), ExecError>(())) && world_entities(
                *final(world),
            ) == world_entities(*old(world)),
            Err(TryRecvError::Disconnected) => r == Some(
                Err::<(), ExecError>(ExecError::Disconnected),
            ) && world_entities(*final(world)) == world_entities(*old(world)),
        },
{
    match received {
        Ok(message) => match message.message().run(world, channel) {
            Ok(()) => None,
            Err(error) => Some(Err(error)),
        },
        Err(TryRecvError::Empty) => Some(Ok(())),
        Err(TryRecvError::Disconnected) => Some(Err(ExecError::Disconnected)),
    }
}

/// Handles the messages that are waiting on `channel`, one after the other, until none
/// is left or one fails.
///
/// A failure of a payload ends the call with that failure; the messages behind it stay
/// on the channel. A channel without a peer ends it with `Disconnected`. Which messages
/// arrive is for the senders to decide: the world becomes what executing their
/// payloads in the order of arrival makes of it, and whatever they ask for, no entity
/// leaves the world.
pub fn try_receive_messages(world: &mut hecs::World, channel: &WorldChannel) -> (r: Result<
    (),
    ExecError,
>)
    ensures
        keeps_entities(world_entities(*old(world)), world_entities(*final(world))),
        drained(world_entities(*old(world)), world_entities(*final(world)), r),
{
    let ghost before = world_entities(*world);
    let ghost mut payloads: Seq<PayloadView> = Seq::empty();
    let ghost mut worlds: Seq<WorldView> = seq![before];
    let mut budget: u64 = u64::MAX;
    while budget > 0
        invariant
            before == world_entities(*old(world)),
            keeps_entities(before, world_entities(*world)),
            ran(payloads, worlds),
            worlds.first() == before,
            worlds.last() == world_entities(*world),
        decreases budget,
    {
        budget -= 1;
        let received = channel.try_recv();
        let ghost came = received;
        match handle_polled(received, world, channel) {
            None => {
                proof {
                    let payload = came->Ok_0@.payload;
                    let longer = payloads.push(payload);
                    let further = worlds.push(world_entities(*world));
                    assert forall|i: int| 0 <= i < longer.len() implies executed(
                        #[trigger] longer[i],
                        further[i],
                        further[i + 1],
                        Ok(()),
                    ) by {
                        if i < payloads.len() {
                            assert(longer[i] == payloads[i]);
                        }
                    }
                    payloads = longer;
                    worlds = further;
                }
            },
            Some(end) => {
                proof {
                    assert(ended(worlds.last(), world_entities(*world), end));
                }
                return end;
            },
        }
    }
    proof {
        assert(ended(world_entities(*world), world_entities(*world), Ok::<(), ExecError>(())));
    }
    Ok(())
}

/// Waits for one message on `channel` and handles it.
///
/// What the channel gives is for the senders to decide: the payload that comes is
/// executed, and a channel that gives none is reported as `Disconnected`. Any other
/// failure is that of the payload, which then left the world as it was.
pub fn receive_messages(world: &mut hecs::World, channel: &WorldChannel) -> (r: Result<
    (),
    ExecError,
>)
    ensures
        keeps_entities(world_entities(*old(world)), world_entities(*final(world))),
        exists|received: Option<PayloadView>| #[trigger]
            handled(received, world_entities(*old(world)), world_entities(*final(world)), r),
        r matches Err(error) && error != ExecError::Disconnected ==> world_entities(*final(world))
            == world_entities(*old(world)),
{
    let received = channel.recv();
    let ghost came = arrived(received);
    let r = handle_received(received, world, channel);
    assert(handled(came, world_entities(*old(world)), world_entities(*world), r));
    r
}

} // verus!
