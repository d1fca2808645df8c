//! Components of the phosphor demo's worlds.
//!
//! Most of them are tags: types without values that say what another component is used
//! for.

use std::marker::PhantomData;
use vstd::prelude::*;

verus! {

/// Tags the phosphor renderer.
pub struct PhosphorRenderer;

/// Tags the instant at which the demo started.
pub struct StartTime;

/// Tags the instant of the current frame.
pub struct Timestamp;

/// Tags the time since the start.
pub struct TotalTime;

/// Tags the time since the last frame.
pub struct DeltaTime;

pub struct BeamBuffer;

pub struct BeamMultisample;

pub struct BeamDepthBuffer;

#[derive(Debug, Copy, Clone)]
pub struct Vertices;

#[derive(Debug, Copy, Clone)]
pub struct TriangleIndices;

#[derive(Debug, Copy, Clone)]
pub struct TriangleMeshes;

#[derive(Debug, Copy, Clone)]
pub struct TriangleMeshInstances;

#[derive(Debug, Copy, Clone)]
pub struct LineVertices;

#[derive(Debug, Copy, Clone)]
pub struct LineIndices;

#[derive(Debug, Copy, Clone)]
pub struct LineMeshes;

#[derive(Debug, Copy, Clone)]
pub struct LineMeshInstances;

#[derive(Debug, Copy, Clone)]
pub struct LineInstances;

pub struct Uniform;

pub struct StorageBuffers;

pub struct PhosphorDecay;

pub struct PhosphorFrontBuffer;

pub struct PhosphorBackBuffer;

pub struct Beam;

pub struct BeamClear;

pub struct BeamLines;

pub struct BeamTriangles;

pub struct Tonemap;

pub struct MapFile;

pub struct PerspectiveMatrix;

pub struct OrthographicMatrix;

pub struct Camera;

/// Tags the map from mesh names to triangle meshes.
#[derive(Copy, Clone)]
pub struct TriangleMeshIds;

/// Tags the map from mesh names to line meshes.
#[derive(Copy, Clone)]
pub struct LineMeshIds;

/// Tags the line mesh that an instance draws.
pub struct LineMeshId;

/// An index into the vertices of a triangle mesh.
pub type TriangleIndexData = u16;

/// An index into the vertices of a line mesh.
pub type LineIndexData = u32;

/// Where the vertices and indices of one triangle mesh lie in the shared buffers.
#[derive(Debug, Default, Copy, Clone)]
pub struct TriangleMeshData {
    pub vertex_count: u32,
    pub instance_count: u32,
    pub index_offset: u32,
    pub vertex_offset: u32,
    pub _pad: u32,
}

/// Where the vertices and indices of one line mesh lie in the shared buffers.
#[derive(Debug, Default, Copy, Clone)]
pub struct LineMeshData {
    pub vertex_offset: u32,
    pub vertex_count: u32,
    pub index_offset: u32,
    pub index_count: u32,
}

/// One line of one instance of a line mesh.
#[derive(Debug, Default, Copy, Clone)]
pub struct LineInstanceData {
    pub mesh_instance: u32,
    pub line_index: u32,
}

/// `std::time::Instant`, which Verus carries through without looking inside.
#[verifier::external_type_specification]
#[verifier::external_body]
pub struct ExInstant(std::time::Instant);

/// A span of time that began at `timestamp` and lasts for `duration`.
#[derive(Debug, Copy, Clone)]
pub struct Timer {
    pub timestamp: std::time::Instant,
    pub duration: std::time::Duration,
}

pub struct TriangleMeshInstance;

pub struct LineMeshInstance;

pub struct SharedShapes;

pub struct EventInput;

pub struct EventOutput;

/// Marks an entity that turns events of type `I` into events of type `O`.
pub struct EventTransformComponent<I, O>(PhantomData<(I, O)>);

impl<I, O> Default for EventTransformComponent<I, O> {
    fn default() -> Self {
        EventTransformComponent(PhantomData)
    }
}

impl EventTransformComponent<(), ()> {
    /// The marker that turns nothing into nothing, to start from.
    pub fn unit() -> Self {
        EventTransformComponent(PhantomData)
    }
}

impl<I, O> EventTransformComponent<I, O> {
    /// The same marker with `T` as the type of the events that come in.
    pub fn with_input_type<T>(self) -> EventTransformComponent<T, O> {
        EventTransformComponent(PhantomData)
    }

    /// The same marker with `T` as the type of the events that go out.
    pub fn with_output_type<T>(self) -> EventTransformComponent<I, T> {
        EventTransformComponent(PhantomData)
    }
}

pub struct EulerAngles;

pub struct PositionOffset;

pub struct RotationOffset;

pub struct Speed;

pub struct MoverOpen;

/// What a mover is told to do.
#[derive(Debug, Copy, Clone)]
pub enum MoverEvent {
    Open,
    Close,
}

impl MoverEvent {
    /// What a mover is told when something begins or ends to intersect its sensor: it
    /// closes while something is inside and opens when that has left.
    pub fn for_intersection(intersecting: bool) -> (r: MoverEvent)
        ensures
            intersecting ==> r is Close,
            !intersecting ==> r is Open,
    {
        if intersecting {
            MoverEvent::Close
        } else {
            MoverEvent::Open
        }
    }
}

pub struct EventIn;

pub struct EventOut;

/// Tags the name of the entity that events of type `T` go to.
pub struct EventTarget<T>(PhantomData<T>);

} // verus!
