//! What the transfer primitives and replies guarantee across two worlds.
//!
//! The statements are over the worlds as maps and the messages as values, the same
//! functions in which the contracts of [`crate::transfer`], [`crate::message`] and
//! [`crate::exchange`] are written.

use crate::bundle::bears_all;
use crate::exchange::routing;
use crate::identity::WorldIdentifier;
use crate::message::{addressed, reply_to, stamped, MessageView, PayloadView};
use crate::transfer::{
    attached, carries, effect, failure, holds_key, insert_message, spawn_message, spawned,
};
use crate::value::ValueView;
use crate::world::WorldView;
use vstd::prelude::*;

verus! {

/// The world after it has carried out, in order, those of `messages` that attach
/// components to an entity it has. The others leave it as it is.
pub open spec fn absorbed(world: WorldView, messages: Seq<MessageView>) -> WorldView
    decreases messages.len(),
{
    if messages.len() == 0 {
        world
    } else {
        let earlier = absorbed(world, messages.drop_last());
        match messages.last().payload {
            PayloadView::Insert { entity, bundle } => if earlier.contains_key(entity) {
                attached(earlier, entity, bundle)
            } else {
                earlier
            },
            _ => earlier,
        }
    }
}

/// Carrying out one message that attaches components is absorbing it.
pub proof fn lemma_absorbed_is_effect(
    world: WorldView,
    after: WorldView,
    message: MessageView,
    outgoing: Seq<MessageView>,
)
    requires
        message.payload is Insert,
        failure(message.payload, world) is None,
        effect(message.payload, world, after, outgoing),
    ensures
        after == absorbed(world, seq![message]),
        outgoing.len() == 0,
{
    assert(seq![message].drop_last() =~= Seq::<MessageView>::empty());
    assert(absorbed(world, Seq::<MessageView>::empty()) == world);
}

/// Messages that all attach the same kind to the same entity leave the value of the
/// last one there.
proof fn lemma_absorbed_moves(
    source: WorldView,
    moved: Seq<u64>,
    outgoing: Seq<MessageView>,
    kind: u64,
    entity: u64,
    destination: WorldIdentifier,
    target: WorldView,
)
    requires
        target.contains_key(entity),
        outgoing.len() == moved.len(),
        forall|i: int|
            0 <= i < moved.len() ==> #[trigger] outgoing[i] == insert_message(
                destination,
                entity,
                kind,
                source[moved[i]][kind],
            ),
    ensures
        absorbed(target, outgoing) == (if moved.len() == 0 {
            target
        } else {
            target.insert(entity, target[entity].insert(kind, source[moved.last()][kind]))
        }),
    decreases outgoing.len(),
{
    if outgoing.len() > 0 {
        let n = outgoing.len() - 1;
        lemma_absorbed_moves(
            source,
            moved.drop_last(),
            outgoing.drop_last(),
            kind,
            entity,
            destination,
            target,
        );
        let earlier = absorbed(target, outgoing.drop_last());
        let value = source[moved.last()][kind];
        assert(outgoing.last() == outgoing[n]);
        assert(outgoing[n] == insert_message(destination, entity, kind, source[moved[n]][kind]));
        let one = Map::<u64, ValueView>::empty().insert(kind, value);
        assert(earlier.contains_key(entity));
        assert(earlier[entity].union_prefer_right(one) =~= target[entity].insert(kind, value));
        assert(attached(earlier, entity, one) =~= target.insert(
            entity,
            target[entity].insert(kind, value),
        ));
    }
}

/// A move takes the component away from every entity of the source that held the key,
/// changes nothing else there, and sends one message for each to the destination.
/// Once the destination has carried the messages out, the component is on the entity
/// that the move named, with the value that a holder of the key had, and nothing else
/// in the destination differs. With a single holder, it is that holder's value: the
/// component is in one place before and in one place after.
pub proof fn law_move_transfers(
    source: WorldView,
    source_after: WorldView,
    outgoing: Seq<MessageView>,
    key_kind: u64,
    key: ValueView,
    kind: u64,
    entity: u64,
    destination: WorldIdentifier,
    target: WorldView,
)
    requires
        effect(
            PayloadView::MoveComponent { key_kind, key, kind, entity, destination },
            source,
            source_after,
            outgoing,
        ),
        target.contains_key(entity),
    ensures
        source_after.dom() == source.dom(),
        forall|holder: u64|
            holds_key(source, holder, key_kind, key, kind) ==> !(#[trigger] source_after[holder]).contains_key(
                kind,
            ) && source_after[holder] == source[holder].remove(kind),
        forall|other: u64|
            source.contains_key(other) && !holds_key(source, other, key_kind, key, kind)
                ==> #[trigger] source_after[other] == source[other],
        forall|i: int|
            0 <= i < outgoing.len() ==> (#[trigger] outgoing[i]).receiver == destination
                && outgoing[i].sender is None,
        absorbed(target, outgoing).dom() == target.dom(),
        forall|other: u64|
            other != entity && target.contains_key(other) ==> #[trigger] absorbed(
                target,
                outgoing,
            )[other] == target[other],
        absorbed(target, outgoing)[entity].remove(kind) == target[entity].remove(kind),
        (forall|holder: u64| !holds_key(source, holder, key_kind, key, kind)) ==> outgoing.len()
            == 0 && absorbed(target, outgoing) == target,
        (exists|holder: u64| holds_key(source, holder, key_kind, key, kind)) ==> absorbed(
            target,
            outgoing,
        )[entity].contains_key(kind) && exists|holder: u64|
            holds_key(source, holder, key_kind, key, kind) && absorbed(
                target,
                outgoing,
            )[entity][kind] == #[trigger] source[holder][kind],
        forall|holder: u64|
            holds_key(source, holder, key_kind, key, kind) && (forall|other: u64|
                holds_key(source, other, key_kind, key, kind) ==> other == holder)
                ==> outgoing.len() == 1 && absorbed(target, outgoing)[entity][kind]
                == #[trigger] source[holder][kind],
{
    let moved = choose|moved: Seq<u64>| #[trigger]
        carries(source, moved, outgoing, key_kind, key, kind, entity, destination);
    lemma_absorbed_moves(source, moved, outgoing, kind, entity, destination, target);
    let after = absorbed(target, outgoing);
    if moved.len() == 0 {
        assert forall|holder: u64| !holds_key(source, holder, key_kind, key, kind) by {
            assert(!moved.contains(holder));
        }
        assert(after[entity].remove(kind) == target[entity].remove(kind));
    } else {
        let last = moved.last();
        assert(moved.contains(last));
        assert(holds_key(source, last, key_kind, key, kind));
        assert(after.dom() =~= target.dom());
        assert(after[entity].remove(kind) =~= target[entity].remove(kind));
        assert(after[entity][kind] == source[last][kind]);
        assert forall|holder: u64|
            holds_key(source, holder, key_kind, key, kind) && (forall|other: u64|
                holds_key(source, other, key_kind, key, kind) ==> other == holder)
                implies outgoing.len() == 1 && after[entity][kind] == #[trigger] source[holder][kind] by {
            assert(last == holder);
            if moved.len() > 1 {
                assert(moved.contains(moved[0]));
                assert(moved[0] == holder);
                assert(moved[moved.len() - 1] == holder);
            }
        }
    }
    assert forall|i: int| 0 <= i < outgoing.len() implies (#[trigger] outgoing[i]).receiver
        == destination && outgoing[i].sender is None by {
        assert(outgoing[i] == insert_message(
            destination,
            entity,
            kind,
            source[moved[i]][kind],
        ));
    }
    assert(source_after.dom() =~= source.dom());
}

/// Copying components to another world leaves the source as it is, in what its
/// entities bear and in every value. The destination gains one entity, which bears the
/// copied components with the values that the source had when they were copied.
///
/// The copy is a value of its own: from here on each world changes only by what it
/// carries out itself, so neither the copy nor what it was copied from depends on the
/// other.
pub proof fn law_clone_keeps_both(
    source: WorldView,
    source_after: WorldView,
    outgoing: Seq<MessageView>,
    entity: u64,
    kinds: Seq<u64>,
    destination: WorldIdentifier,
    target: WorldView,
    target_after: WorldView,
)
    requires
        failure(PayloadView::CloneQuery { entity, kinds, destination }, source) is None,
        effect(
            PayloadView::CloneQuery { entity, kinds, destination },
            source,
            source_after,
            outgoing,
        ),
        outgoing.len() > 0 ==> failure(outgoing[0].payload, target) is None && effect(
            outgoing[0].payload,
            target,
            target_after,
            Seq::<MessageView>::empty(),
        ),
    ensures
        source_after == source,
        outgoing == seq![spawn_message(destination, source[entity].restrict(kinds.to_set()))],
        outgoing[0].receiver == destination,
        exists|copy: u64|
            !target.contains_key(copy) && target_after == #[trigger] target.insert(
                copy,
                source[entity].restrict(kinds.to_set()),
            ),
        forall|j: int|
            0 <= j < kinds.len() ==> source[entity].restrict(kinds.to_set()).contains_key(
                #[trigger] kinds[j],
            ) && source[entity].restrict(kinds.to_set())[kinds[j]] == source[entity][kinds[j]],
        forall|other: u64| target.contains_key(other) ==> target_after[other] == target[other],
{
    let copied = source[entity].restrict(kinds.to_set());
    assert(outgoing[0] == spawn_message(destination, copied));
    assert(spawned(target, target_after, copied));
    assert forall|j: int| 0 <= j < kinds.len() implies copied.contains_key(#[trigger] kinds[j])
        && copied[kinds[j]] == source[entity][kinds[j]] by {
        assert(kinds.contains(kinds[j]));
        assert(bears_all(source[entity], kinds));
    }
}

/// Copying one component to another world leaves the source as it is. The destination
/// gains one entity, which bears that component alone, with the value that the source
/// had when it was copied.
pub proof fn law_copy_keeps_both(
    source: WorldView,
    source_after: WorldView,
    outgoing: Seq<MessageView>,
    entity: u64,
    kind: u64,
    destination: WorldIdentifier,
    target: WorldView,
    target_after: WorldView,
)
    requires
        failure(PayloadView::CopyComponent { entity, kind, destination }, source) is None,
        effect(
            PayloadView::CopyComponent { entity, kind, destination },
            source,
            source_after,
            outgoing,
        ),
        outgoing.len() > 0 ==> failure(outgoing[0].payload, target) is None && effect(
            outgoing[0].payload,
            target,
            target_after,
            Seq::<MessageView>::empty(),
        ),
    ensures
        source_after == source,
        source_after.contains_key(entity) && source_after[entity].contains_key(kind),
        outgoing.len() == 1,
        outgoing[0].receiver == destination,
        exists|copy: u64|
            !target.contains_key(copy) && target_after == #[trigger] target.insert(
                copy,
                Map::<u64, ValueView>::empty().insert(kind, source[entity][kind]),
            ),
        forall|other: u64| target.contains_key(other) ==> target_after[other] == target[other],
{
    let copied = Map::<u64, ValueView>::empty().insert(kind, source[entity][kind]);
    assert(outgoing[0] == spawn_message(destination, copied));
    assert(spawned(target, target_after, copied));
    assert(seq![kind][0] == kind);
}

/// A reply goes back to the world that sent the message it answers.
///
/// Let the router take `m` from the channel of the world at position `origin` and
/// deliver it. A reply to what was delivered is addressed to that world, and the
/// router takes it there from the channel of whichever world `via` sends it.
pub proof fn law_reply_returns(
    registry: Seq<WorldIdentifier>,
    origin: int,
    m: MessageView,
    answer: PayloadView,
    via: WorldIdentifier,
)
    requires
        0 <= origin < registry.len(),
        routing(registry, registry[origin], m) is Some,
    ensures
        ({
            let delivered = routing(registry, registry[origin], m)->0;
            let reply = reply_to(delivered, answer);
            &&& delivered.sender == Some(registry[origin])
            &&& reply == Some(addressed(registry[origin], answer))
            &&& routing(registry, via, reply->0) == Some(stamped(reply->0, via))
            &&& stamped(reply->0, via).receiver == registry[origin]
            &&& stamped(reply->0, via).payload == answer
        }),
{
    assert(registry.contains(registry[origin]));
}

} // verus!
