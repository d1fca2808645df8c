//! Transfer primitives: what a payload does to the world that executes it.
//!
//! Every primitive is stated over the world's entities as a map from entity to
//! components. Data crosses to another world by value only: a primitive that sends
//! hands out a new message with its own copy of the data.

use crate::bundle::{bears_all, Bundle};
use crate::error::ExecError;
use crate::identity::WorldIdentifier;
use crate::message::{addressed, MessageView, Payload, PayloadView, WorldMessage};
use crate::value::{Value, ValueView};
use crate::world::{
    world_attach, world_bundle, world_entities, world_ids, world_len, world_spawn, WorldView,
};
use vstd::prelude::*;

verus! {

/// The payload that spawns `bundle` as a new entity.
pub fn spawn_bundle(bundle: Bundle) -> (r: Payload)
    ensures
        r@ == (PayloadView::Spawn { bundle: bundle@ }),
{
    Payload::Spawn { bundle }
}

/// The payload that attaches `component` to `entity`.
pub fn insert_component(entity: u64, component: Bundle) -> (r: Payload)
    ensures
        r@ == (PayloadView::Insert { entity, bundle: component@ }),
{
    Payload::Insert { entity, bundle: component }
}

/// The payload that copies the components of `kinds` from `entity` and sends them to
/// world `destination`, which spawns them.
pub fn send_clone_query(entity: u64, kinds: Vec<u64>, destination: WorldIdentifier) -> (r: Payload)
    ensures
        r@ == (PayloadView::CloneQuery { entity, kinds: kinds@, destination }),
{
    Payload::CloneQuery { entity, kinds, destination }
}

/// The payload that copies the component of `kind` from `entity` and sends it to world
/// `destination`, which spawns it.
pub fn send_copy_component(entity: u64, kind: u64, destination: WorldIdentifier) -> (r: Payload)
    ensures
        r@ == (PayloadView::CopyComponent { entity, kind, destination }),
{
    Payload::CopyComponent { entity, kind, destination }
}

/// The payload that moves the component of `kind` from every entity whose component of
/// `key_kind` equals `key` to `entity` in world `destination`.
pub fn send_component(
    key_kind: u64,
    key: Value,
    kind: u64,
    entity: u64,
    destination: WorldIdentifier,
) -> (r: Payload)
    ensures
        r@ == (PayloadView::MoveComponent { key_kind, key: key@, kind, entity, destination }),
{
    Payload::MoveComponent { key_kind, key, kind, entity, destination }
}

/// Whether a world can take one more entity.
pub open spec fn has_room(before: WorldView) -> bool {
    before.dom().finite() && before.dom().len() < u32::MAX
}

/// Whether `entity` bears the key and the component that a move asks for.
pub open spec fn holds_key(
    before: WorldView,
    entity: u64,
    key_kind: u64,
    key: ValueView,
    kind: u64,
) -> bool {
    &&& before.contains_key(entity)
    &&& before[entity].contains_key(key_kind)
    &&& before[entity][key_kind] == key
    &&& before[entity].contains_key(kind)
}

/// The world after a move: every entity that held the key has lost the component of
/// `kind`; nothing else differs.
pub open spec fn stripped(before: WorldView, key_kind: u64, key: ValueView, kind: u64) -> WorldView {
    Map::new(
        |entity: u64| before.contains_key(entity),
        |entity: u64|
            if holds_key(before, entity, key_kind, key, kind) {
                before[entity].remove(kind)
            } else {
                before[entity]
            },
    )
}

/// The message that has `destination` spawn `bundle`.
pub open spec fn spawn_message(
    destination: WorldIdentifier,
    bundle: Map<u64, ValueView>,
) -> MessageView {
    addressed(destination, PayloadView::Spawn { bundle })
}

/// The message that has `destination` attach one component to `entity`.
pub open spec fn insert_message(
    destination: WorldIdentifier,
    entity: u64,
    kind: u64,
    value: ValueView,
) -> MessageView {
    addressed(
        destination,
        PayloadView::Insert { entity, bundle: Map::<u64, ValueView>::empty().insert(kind, value) },
    )
}

/// `outgoing` carries, one message for each, the components that a move took from the
/// entities `moved`, and `moved` lists every entity that held the key once.
pub open spec fn carries(
    before: WorldView,
    moved: Seq<u64>,
    outgoing: Seq<MessageView>,
    key_kind: u64,
    key: ValueView,
    kind: u64,
    entity: u64,
    destination: WorldIdentifier,
) -> bool {
    &&& moved.no_duplicates()
    &&& forall|source: u64|
        moved.contains(source) <==> holds_key(before, source, key_kind, key, kind)
    &&& outgoing.len() == moved.len()
    &&& forall|i: int|
        0 <= i < moved.len() ==> #[trigger] outgoing[i] == insert_message(
            destination,
            entity,
            kind,
            before[moved[i]][kind],
        )
}

/// `outgoing` carries what a move took, in some order of the entities that held the key.
pub open spec fn moved_out(
    before: WorldView,
    outgoing: Seq<MessageView>,
    key_kind: u64,
    key: ValueView,
    kind: u64,
    entity: u64,
    destination: WorldIdentifier,
) -> bool {
    exists|moved: Seq<u64>| #[trigger]
        carries(before, moved, outgoing, key_kind, key, kind, entity, destination)
}

/// The world in which `entity` has gained the components of `bundle`, in place of those
/// of the same kinds that it had.
pub open spec fn attached(before: WorldView, entity: u64, bundle: Map<u64, ValueView>) -> WorldView {
    before.insert(entity, before[entity].union_prefer_right(bundle))
}

/// `after` is `before` with one more entity, which bears `bundle`.
pub open spec fn spawned(before: WorldView, after: WorldView, bundle: Map<u64, ValueView>) -> bool {
    exists|entity: u64|
        !before.contains_key(entity) && after == #[trigger] before.insert(entity, bundle)
}

/// Why the components of `kinds` cannot be read from `entity`, if they cannot: the
/// entity is not there, or it lacks one of them.
pub open spec fn unreadable(before: WorldView, entity: u64, kinds: Seq<u64>) -> Option<ExecError> {
    if !before.contains_key(entity) {
        Some(ExecError::NoSuchEntity)
    } else if !bears_all(before[entity], kinds) {
        Some(ExecError::MissingComponent)
    } else {
        None
    }
}

/// The failure with which a payload ends in a world, if it fails there.
pub open spec fn failure(payload: PayloadView, before: WorldView) -> Option<ExecError> {
    match payload {
        PayloadView::Spawn { bundle } => if has_room(before) {
            None
        } else {
            Some(ExecError::WorldFull)
        },
        PayloadView::Insert { entity, bundle } => if before.contains_key(entity) {
            None
        } else {
            Some(ExecError::NoSuchEntity)
        },
        PayloadView::CloneQuery { entity, kinds, destination } => unreadable(
            before,
            entity,
            kinds,
        ),
        PayloadView::CopyComponent { entity, kind, destination } => unreadable(
            before,
            entity,
            seq![kind],
        ),
        PayloadView::MoveComponent { key_kind, key, kind, entity, destination } => None,
    }
}

/// What a payload that does not fail does: the world it leaves and the messages it
/// hands out, in the order in which they are to be sent.
pub open spec fn effect(
    payload: PayloadView,
    before: WorldView,
    after: WorldView,
    outgoing: Seq<MessageView>,
) -> bool {
    match payload {
        PayloadView::Spawn { bundle } => {
            &&& outgoing.len() == 0
            &&& spawned(before, after, bundle)
        },
        PayloadView::Insert { entity, bundle } => {
            &&& outgoing.len() == 0
            &&& after == attached(before, entity, bundle)
        },
        PayloadView::CloneQuery { entity, kinds, destination } => {
            &&& after == before
            &&& outgoing == seq![
                spawn_message(destination, before[entity].restrict(kinds.to_set())),
            ]
        },
        PayloadView::CopyComponent { entity, kind, destination } => {
            &&& after == before
            &&& outgoing == seq![
                spawn_message(
                    destination,
                    Map::<u64, ValueView>::empty().insert(kind, before[entity][kind]),
                ),
            ]
        },
        PayloadView::MoveComponent { key_kind, key, kind, entity, destination } => {
            &&& after == stripped(before, key_kind, key, kind)
            &&& moved_out(before, outgoing, key_kind, key, kind, entity, destination)
        },
    }
}

/// Whether every entity of `before` is an entity of `after`.
pub open spec fn keeps_entities(before: WorldView, after: WorldView) -> bool {
    forall|entity: u64| before.contains_key(entity) ==> after.contains_key(entity)
}

/// No payload takes an entity out of its world.
pub proof fn lemma_effect_keeps_entities(
    payload: PayloadView,
    before: WorldView,
    after: WorldView,
    outgoing: Seq<MessageView>,
)
    requires
        effect(payload, before, after, outgoing),
    ensures
        keeps_entities(before, after),
{
}

/// The messages of a list, as specifications see them.
pub open spec fn message_views(messages: Seq<WorldMessage>) -> Seq<MessageView> {
    messages.map_values(|m: WorldMessage| m@)
}

/// The entities of a list of taken components.
pub open spec fn taken_from(taken: Seq<(u64, Value)>) -> Seq<u64> {
    taken.map_values(|t: (u64, Value)| t.0)
}

/// Spawns `bundle` as a new entity of `world` and returns the entity.
pub fn spawn_into(world: &mut hecs::World, bundle: Bundle) -> (r: Result<u64, ExecError>)
    ensures
        match r {
            Ok(entity) => {
                &&& has_room(world_entities(*old(world)))
                &&& !world_entities(*old(world)).contains_key(entity)
                &&& world_entities(*final(world)) == world_entities(*old(world)).insert(
                    entity,
                    bundle@,
                )
            },
            Err(error) => {
                &&& !has_room(world_entities(*old(world)))
                &&& error == ExecError::WorldFull
                &&& world_entities(*final(world)) == world_entities(*old(world))
            },
        },
{
    let count = world_len(world);
    if count < u32::MAX {
        Ok(world_spawn(world, bundle))
    } else {
        Err(ExecError::WorldFull)
    }
}

/// Attaches the components of `bundle` to `entity`, in place of those of the same kinds
/// that the entity has.
pub fn insert_into(world: &mut hecs::World, entity: u64, bundle: &Bundle) -> (r: Result<
    (),
    ExecError,
>)
    ensures
        match r {
            Ok(_) => {
                &&& world_entities(*old(world)).contains_key(entity)
                &&& world_entities(*final(world)) == attached(
                    world_entities(*old(world)),
                    entity,
                    bundle@,
                )
            },
            Err(error) => {
                &&& !world_entities(*old(world)).contains_key(entity)
                &&& error == ExecError::NoSuchEntity
                &&& world_entities(*final(world)) == world_entities(*old(world))
            },
        },
{
    match world_bundle(world, entity) {
        Some(mut held) => {
            held.merge(bundle);
            let attached = world_attach(world, entity, held);
            assert(attached);
            Ok(())
        },
        None => Err(ExecError::NoSuchEntity),
    }
}

/// A copy of the components of `kinds` that `entity` bears. The world stays as it is.
pub fn clone_components(world: &mut hecs::World, entity: u64, kinds: &Vec<u64>) -> (r: Result<
    Bundle,
    ExecError,
>)
    ensures
        world_entities(*final(world)) == world_entities(*old(world)),
        match unreadable(world_entities(*old(world)), entity, kinds@) {
            Some(error) => r == Err::<Bundle, ExecError>(error),
            None => r is Ok && r->Ok_0@ == world_entities(*old(world))[entity].restrict(
                kinds@.to_set(),
            ),
        },
{
    match world_bundle(world, entity) {
        Some(held) => match held.project(kinds) {
            Some(copy) => Ok(copy),
            None => Err(ExecError::MissingComponent),
        },
        None => Err(ExecError::NoSuchEntity),
    }
}

/// A copy of the component of `kind` that `entity` bears. The world stays as it is.
pub fn copy_component(world: &mut hecs::World, entity: u64, kind: u64) -> (r: Result<
    Value,
    ExecError,
>)
    ensures
        world_entities(*final(world)) == world_entities(*old(world)),
        match unreadable(world_entities(*old(world)), entity, seq![kind]) {
            Some(error) => r == Err::<Value, ExecError>(error),
            None => r is Ok && r->Ok_0@ == world_entities(*old(world))[entity][kind],
        },
{
    match world_bundle(world, entity) {
        Some(held) => {
            assert(bears_all(held@, seq![kind]) <==> held@.contains_key(kind)) by {
                assert(seq![kind][0] == kind);
            }
            match held.get(kind) {
                Some(copy) => Ok(copy),
                None => Err(ExecError::MissingComponent),
            }
        },
        None => Err(ExecError::NoSuchEntity),
    }
}

/// Takes the component of `kind` away from every entity whose component of `key_kind`
/// equals `key`, and returns what was taken, each value with the entity it came from.
///
/// Every entity that held the key occurs once in the result; the order is that in which
/// the world lists its entities.
pub fn take_components(world: &mut hecs::World, key_kind: u64, key: &Value, kind: u64) -> (taken:
    Vec<(u64, Value)>)
    ensures
        world_entities(*final(world)) == stripped(world_entities(*old(world)), key_kind, key@, kind),
        taken_from(taken@).no_duplicates(),
        forall|entity: u64|
            taken_from(taken@).contains(entity) <==> holds_key(
                world_entities(*old(world)),
                entity,
                key_kind,
                key@,
                kind,
            ),
        forall|i: int|
            0 <= i < taken.len() ==> (#[trigger] taken[i]).1@ == world_entities(
                *old(world),
            )[taken[i].0][kind],
{
    let ghost before = world_entities(*world);
    let ids = world_ids(world);
    let mut taken: Vec<(u64, Value)> = Vec::new();
    let mut i: usize = 0;
    while i < ids.len()
        invariant
            i <= ids.len(),
            ids@.no_duplicates(),
            forall|entity: u64| ids@.contains(entity) <==> before.contains_key(entity),
            world_entities(*world).dom() =~= before.dom(),
            forall|entity: u64|
                before.contains_key(entity) ==> #[trigger] world_entities(*world)[entity] == (if ids@.take(
                    i as int,
                ).contains(entity) && holds_key(before, entity, key_kind, key@, kind) {
                    before[entity].remove(kind)
                } else {
                    before[entity]
                }),
            taken_from(taken@).no_duplicates(),
            forall|entity: u64|
                taken_from(taken@).contains(entity) <==> ids@.take(i as int).contains(entity)
                    && holds_key(before, entity, key_kind, key@, kind),
            forall|k: int|
                0 <= k < taken.len() ==> (#[trigger] taken[k]).1@ == before[taken[k].0][kind],
        decreases ids.len() - i,
    {
        let id = ids[i];
        proof {
            lemma_take_next(ids@, i as int);
            assert(ids@.contains(id));
            assert(!ids@.take(i as int).contains(id));
        }
        let ghost taken_before = taken@;
        match world_bundle(world, id) {
            Some(held) => {
                let mut held = held;
                let hit = match held.get(key_kind) {
                    Some(found) => found == *key,
                    None => false,
                };
                if hit {
                    match held.remove(kind) {
                        Some(value) => {
                            world_attach(world, id, held);
                            taken.push((id, value));
                            proof {
                                assert(holds_key(before, id, key_kind, key@, kind));
                                assert(taken_from(taken@) =~= taken_from(taken_before).push(id));
                                assert forall|entity: u64|
                                    taken_from(taken@).contains(entity) <==> ids@.take(
                                        i as int + 1,
                                    ).contains(entity) && holds_key(
                                        before,
                                        entity,
                                        key_kind,
                                        key@,
                                        kind,
                                    ) by {
                                    lemma_push_contains(taken_from(taken_before), id, entity);
                                }
                                lemma_push_no_duplicates(taken_from(taken_before), id);
                            }
                        },
                        None => {
                            assert(!holds_key(before, id, key_kind, key@, kind));
                        },
                    }
                } else {
                    assert(!holds_key(before, id, key_kind, key@, kind));
                }
            },
            None => {},
        }
        i += 1;
    }
    proof {
        assert(ids@.take(i as int) =~= ids@);
        assert(world_entities(*world) =~= stripped(before, key_kind, key@, kind));
    }
    taken
}

impl Payload {
    /// Carries the payload out in `world` and returns the messages that it wants sent,
    /// in order. A payload that fails leaves the world as it was.
    pub fn apply(self, world: &mut hecs::World) -> (r: Result<Vec<WorldMessage>, ExecError>)
        ensures
            match failure(self@, world_entities(*old(world))) {
                Some(error) => r == Err::<Vec<WorldMessage>, ExecError>(error) && world_entities(
                    *final(world),
                ) == world_entities(*old(world)),
                None => r is Ok && effect(
                    self@,
                    world_entities(*old(world)),
                    world_entities(*final(world)),
                    message_views(r->Ok_0@),
                ),
            },
    {
        let ghost before = world_entities(*world);
        match self {
            Payload::Spawn { bundle } => {
                match spawn_into(world, bundle) {
                    Ok(entity) => {
                        assert(world_entities(*world) == before.insert(entity, bundle@));
                        Ok(Vec::new())
                    },
                    Err(error) => Err(error),
                }
            },
            Payload::Insert { entity, bundle } => {
                match insert_into(world, entity, &bundle) {
                    Ok(()) => Ok(Vec::new()),
                    Err(error) => Err(error),
                }
            },
            Payload::CloneQuery { entity, kinds, destination } => {
                match clone_components(world, entity, &kinds) {
                    Ok(copy) => {
                        let mut outgoing: Vec<WorldMessage> = Vec::new();
                        outgoing.push(WorldMessage::to(destination, spawn_bundle(copy)));
                        assert(message_views(outgoing@) =~= seq![
                            spawn_message(destination, before[entity].restrict(kinds@.to_set())),
                        ]);
                        Ok(outgoing)
                    },
                    Err(error) => Err(error),
                }
            },
            Payload::CopyComponent { entity, kind, destination } => {
                match copy_component(world, entity, kind) {
                    Ok(copy) => {
                        let mut outgoing: Vec<WorldMessage> = Vec::new();
                        outgoing.push(
                            WorldMessage::to(destination, spawn_bundle(Bundle::single(kind, copy))),
                        );
                        assert(message_views(outgoing@) =~= seq![
                            spawn_message(
                                destination,
                                Map::<u64, ValueView>::empty().insert(kind, before[entity][kind]),
                            ),
                        ]);
                        Ok(outgoing)
                    },
                    Err(error) => Err(error),
                }
            },
            Payload::MoveComponent { key_kind, key, kind, entity, destination } => {
                let taken = take_components(world, key_kind, &key, kind);
                let mut outgoing: Vec<WorldMessage> = Vec::new();
                let mut i: usize = 0;
                while i < taken.len()
                    invariant
                        i <= taken.len(),
                        outgoing.len() == i,
                        world_entities(*world) == stripped(before, key_kind, key@, kind),
                        taken_from(taken@).no_duplicates(),
                        forall|source: u64|
                            taken_from(taken@).contains(source) <==> holds_key(
                                before,
                                source,
                                key_kind,
                                key@,
                                kind,
                            ),
                        forall|k: int|
                            0 <= k < taken.len() ==> (#[trigger] taken[k]).1@
                                == before[taken[k].0][kind],
                        forall|k: int|
                            0 <= k < i ==> (#[trigger] outgoing[k])@ == insert_message(
                                destination,
                                entity,
                                kind,
                                before[taken[k].0][kind],
                            ),
                    decreases taken.len() - i,
                {
                    let value = taken[i].1.clone();
                    outgoing.push(
                        WorldMessage::to(
                            destination,
                            insert_component(entity, Bundle::single(kind, value)),
                        ),
                    );
                    i += 1;
                }
                proof {
                    let moved = taken_from(taken@);
                    let views = message_views(outgoing@);
                    assert forall|k: int| 0 <= k < moved.len() implies #[trigger] views[k]
                        == insert_message(destination, entity, kind, before[moved[k]][kind]) by {
                        assert(views[k] == outgoing[k]@);
                        assert(moved[k] == taken[k].0);
                    }
                    assert(carries(
                        before,
                        moved,
                        views,
                        key_kind,
                        key@,
                        kind,
                        entity,
                        destination,
                    ));
                }
                Ok(outgoing)
            },
        }
    }
}

/// The elements of a prefix that is one longer.
proof fn lemma_take_next(s: Seq<u64>, i: int)
    requires
        0 <= i < s.len(),
        s.no_duplicates(),
    ensures
        s.contains(s[i]),
        !s.take(i).contains(s[i]),
        forall|x: u64| s.take(i + 1).contains(x) <==> s.take(i).contains(x) || x == s[i],
{
    assert(s.take(i + 1) =~= s.take(i).push(s[i]));
    assert forall|x: u64| s.take(i + 1).contains(x) <==> s.take(i).contains(x) || x == s[i] by {
        lemma_push_contains(s.take(i), s[i], x);
    }
    if s.take(i).contains(s[i]) {
        let j = choose|j: int| 0 <= j < s.take(i).len() && s.take(i)[j] == s[i];
        assert(s[j] == s[i]);
    }
}

/// Appending an element that is not there keeps a sequence free of duplicates.
proof fn lemma_push_no_duplicates(s: Seq<u64>, x: u64)
    requires
        s.no_duplicates(),
        !s.contains(x),
    ensures
        s.push(x).no_duplicates(),
{
    assert forall|i: int, j: int|
        0 <= i < s.push(x).len() && 0 <= j < s.push(x).len() && i != j implies s.push(x)[i]
        != s.push(x)[j] by {
        if i < s.len() && j < s.len() {
        } else if i < s.len() {
            assert(s.contains(s[i]));
        } else {
            assert(s.contains(s[j]));
        }
    }
}

/// Membership in a sequence after one more element was appended.
proof fn lemma_push_contains(s: Seq<u64>, x: u64, k: u64)
    ensures
        s.push(x).contains(k) <==> s.contains(k) || k == x,
{
    if s.push(x).contains(k) {
        let j = choose|j: int| 0 <= j < s.push(x).len() && s.push(x)[j] == k;
        if j < s.len() {
            assert(s[j] == k);
        }
    }
    if s.contains(k) {
        let j = choose|j: int| 0 <= j < s.len() && s[j] == k;
        assert(s.push(x)[j] == k);
    }
    if k == x {
        assert(s.push(x)[s.len() as int] == k);
    }
}

} // verus!
