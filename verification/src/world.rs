//! The entity store of a world.
//!
//! A world keeps its entities in a `hecs::World`. Of each entity this library reads
//! and writes one component, its [`Bundle`]; an entity without one counts as bearing the
//! empty bundle. Entities are named by the bits of their `hecs` handle.
//!
//! Nothing in this file is proved: it states what the calls into `hecs` do.

use crate::bundle::Bundle;
use crate::value::ValueView;
use vstd::prelude::*;

verus! {

/// `hecs::World`, which Verus carries through without looking inside.
#[verifier::external_type_specification]
#[verifier::external_body]
pub struct ExWorld(hecs::World);

/// What a world holds, in specifications: each entity's components by kind.
pub type WorldView = Map<u64, Map<u64, ValueView>>;

/// The entities of `world`, pending reservations included, each with the components of
/// its bundle.
pub uninterp spec fn world_entities(world: hecs::World) -> Map<u64, Map<u64, ValueView>>;

/// `World::flush`, then `World::len`: the number of entities.
///
/// The count is a `u32`, so a world never holds more than `u32::MAX` entities.
#[verifier::external_body]
pub(crate) fn world_len(world: &mut hecs::World) -> (r: u32)
    ensures
        world_entities(*final(world)) == world_entities(*old(world)),
        world_entities(*old(world)).dom().finite(),
        world_entities(*old(world)).dom().len() == r,
{
    world.flush();
    world.len()
}

/// `World::flush`, then `World::iter` with `Entity::to_bits`: every entity once, in an
/// order that `hecs` leaves open.
#[verifier::external_body]
pub(crate) fn world_ids(world: &mut hecs::World) -> (r: Vec<u64>)
    ensures
        world_entities(*final(world)) == world_entities(*old(world)),
        r@.no_duplicates(),
        forall|entity: u64| r@.contains(entity) <==> world_entities(*old(world)).contains_key(entity),
{
    world.flush();
    world.iter().map(|found| found.entity().to_bits().get()).collect()
}

/// `World::flush`, then `World::query_one_mut` for the entity's bundle: a copy of the
/// bundle that the entity bears, the empty bundle where it has none of its own, and
/// nothing where the entity does not exist.
#[verifier::external_body]
pub(crate) fn world_bundle(world: &mut hecs::World, entity: u64) -> (r: Option<Bundle>)
    ensures
        world_entities(*final(world)) == world_entities(*old(world)),
        r is Some <==> world_entities(*old(world)).contains_key(entity),
        r matches Some(bundle) ==> bundle@ == world_entities(*old(world))[entity],
{
    world.flush();
    let handle = hecs::Entity::from_bits(entity)?;
    let found = world.query_one_mut::<Option<&Bundle>>(handle).ok()?;
    Some(found.cloned().unwrap_or_default())
}

/// `World::spawn` with `Entity::to_bits`: a new entity that bears `bundle`. Its handle
/// is one that no entity of the world had; the other entities stay as they were.
///
/// `hecs` panics when it runs out of entity numbers, which takes `u32::MAX` entities.
#[verifier::external_body]
pub(crate) fn world_spawn(world: &mut hecs::World, bundle: Bundle) -> (entity: u64)
    requires
        world_entities(*old(world)).dom().finite(),
        world_entities(*old(world)).dom().len() < u32::MAX,
    ensures
        !world_entities(*old(world)).contains_key(entity),
        world_entities(*final(world)) == world_entities(*old(world)).insert(entity, bundle@),
{
    world.spawn((bundle,)).to_bits().get()
}

/// `Entity::from_bits`, then `World::insert_one`: makes `bundle` the bundle of the
/// entity, in place of the one it had, and says whether the entity exists. Where it
/// does not, nothing changes.
#[verifier::external_body]
pub(crate) fn world_attach(world: &mut hecs::World, entity: u64, bundle: Bundle) -> (r: bool)
    ensures
        r == world_entities(*old(world)).contains_key(entity),
        r ==> world_entities(*final(world)) == world_entities(*old(world)).insert(
            entity,
            bundle@,
        ),
        !r ==> world_entities(*final(world)) == world_entities(*old(world)),
{
    match hecs::Entity::from_bits(entity) {
        Some(handle) => world.insert_one(handle, bundle).is_ok(),
        None => false,
    }
}

} // verus!
