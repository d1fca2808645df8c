//! Tags of the components that a physics backend keeps in a world.

use vstd::prelude::*;

verus! {

/// Tags the gravity that a world's physics runs under.
pub struct Gravity;

/// Tags the linear velocity of a rigid body.
pub struct LinearVelocity;

/// Tags the angular velocity of a rigid body.
pub struct AngularVelocity;

/// Tags the rigid body that a collider hangs on.
pub struct ColliderParent;

/// Tags a rigid body.
pub struct RigidBodyTag;

/// How far a rigid body has come: described and not in the physics set yet, or in the
/// set under a handle, given by its index and generation.
#[derive(Clone, Copy, Debug, PartialEq, Eq, Structural)]
pub enum BodyState {
    Pending,
    Ready { index: u32, generation: u32 },
}

/// Where a collider that waits to enter the physics set goes.
#[derive(Clone, Copy, Debug, PartialEq, Eq, Structural)]
pub enum Placement {
    /// Into the set on its own, at its own position and rotation.
    Alone,
    /// Into the set on the rigid body with this handle.
    OnBody { index: u32, generation: u32 },
    /// Nowhere yet: its rigid body is not in the set.
    Wait,
}

/// The placement of a collider whose entity has the rigid body `own`, or none, and
/// names the rigid body `parent` of another entity, or none.
///
/// The entity's own body counts before a named one. A body that is still pending
/// keeps the collider waiting.
pub open spec fn placement(own: Option<BodyState>, parent: Option<BodyState>) -> Placement {
    match (own, parent) {
        (None, None) => Placement::Alone,
        (Some(BodyState::Ready { index, generation }), _) => Placement::OnBody {
            index,
            generation,
        },
        (Some(BodyState::Pending), _) => Placement::Wait,
        (None, Some(BodyState::Ready { index, generation })) => Placement::OnBody {
            index,
            generation,
        },
        (None, Some(BodyState::Pending)) => Placement::Wait,
    }
}

/// Decides where a pending collider goes.
pub fn place_collider(own: Option<BodyState>, parent: Option<BodyState>) -> (r: Placement)
    ensures
        r == placement(own, parent),
{
    match own {
        Some(BodyState::Ready { index, generation }) => Placement::OnBody { index, generation },
        Some(BodyState::Pending) => Placement::Wait,
        None => match parent {
            Some(BodyState::Ready { index, generation }) => Placement::OnBody {
                index,
                generation,
            },
            Some(BodyState::Pending) => Placement::Wait,
            None => Placement::Alone,
        },
    }
}

/// Whether a pending collider takes the position and rotation of its own entity: it
/// does where the entity has no rigid body of its own.
pub fn keeps_own_transform(own: Option<BodyState>) -> (r: bool)
    ensures
        r == (own is None),
{
    own.is_none()
}

} // verus!
