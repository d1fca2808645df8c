//! Layout of the phosphor demo's meshes: the index lists that go into its buffers.

use crate::phosphor::components::{LineInstanceData, LineMeshData, TriangleMeshData};
use vstd::prelude::*;

verus! {

/// The size in bytes of one triangle index.
pub const TRIANGLE_INDEX_SIZE: u64 = 2;

/// The alignment in bytes that a copy into a buffer asks of its size.
pub const COPY_BUFFER_ALIGNMENT: u64 = 4;

/// Whether `count` triangle indices fill a whole number of copy units.
pub open spec fn copy_aligned(count: nat) -> bool {
    (TRIANGLE_INDEX_SIZE * count) % (COPY_BUFFER_ALIGNMENT as int) == 0
}

/// A list of triangle indices with one degenerate triangle at its end where its size
/// is not aligned.
pub open spec fn padded(indices: Seq<u16>) -> Seq<u16> {
    if copy_aligned(indices.len()) {
        indices
    } else {
        indices + seq![0u16, 0u16, 0u16]
    }
}

/// Pads a list of triangle indices to the alignment of buffer copies.
pub fn pad_align_triangle_list(indices: &mut Vec<u16>)
    ensures
        final(indices)@ == padded(old(indices)@),
        copy_aligned(final(indices)@.len()),
{
    while indices.len() % 2 != 0
        invariant
            indices@ == old(indices)@ || (!copy_aligned(old(indices)@.len()) && indices@ == old(
                indices,
            )@ + seq![0u16, 0u16, 0u16]),
        decreases indices.len() % 2,
    {
        assert(indices@ == old(indices)@);
        indices.push(0);
        indices.push(0);
        indices.push(0);
        assert(indices@ =~= old(indices)@ + seq![0u16, 0u16, 0u16]);
    }
}

/// The number of groups of `size` that `count` items fall into, the last one possibly
/// short.
pub open spec fn chunks(count: nat, size: nat) -> nat {
    ((count + size - 1) / (size as int)) as nat
}

/// The indices of a line list over `vertex_count` vertices: each pair of vertices is
/// one line, numbered as they come.
pub fn line_list_indices(vertex_count: usize) -> (indices: Vec<u32>)
    requires
        vertex_count < u32::MAX,
    ensures
        indices@ == Seq::new(2 * chunks(vertex_count as nat, 2), |i: int| i as u32),
{
    let lines = vertex_count / 2 + vertex_count % 2;
    let mut indices: Vec<u32> = Vec::new();
    let mut line: usize = 0;
    while line < lines
        invariant
            line <= lines,
            lines == chunks(vertex_count as nat, 2),
            2 * lines <= u32::MAX,
            indices@ == Seq::new(2 * line as nat, |i: int| i as u32),
        decreases lines - line,
    {
        let first = (2 * line) as u32;
        indices.push(first);
        indices.push(first + 1);
        line += 1;
        assert(indices@ =~= Seq::new(2 * line as nat, |i: int| i as u32));
    }
    indices
}

/// The indices of a line strip over `vertex_count` vertices: each vertex is joined to
/// the next.
pub fn line_strip_indices(vertex_count: usize) -> (indices: Vec<u32>)
    requires
        2 <= vertex_count <= u32::MAX,
    ensures
        indices@ == Seq::new(2 * (vertex_count - 1) as nat, |i: int| ((i + 1) / 2) as u32),
{
    let mut indices: Vec<u32> = Vec::new();
    let mut line: usize = 0;
    while line < vertex_count - 1
        invariant
            line <= vertex_count - 1,
            vertex_count <= u32::MAX,
            indices@ == Seq::new(2 * line as nat, |i: int| ((i + 1) / 2) as u32),
        decreases vertex_count - 1 - line,
    {
        indices.push(line as u32);
        indices.push(line as u32 + 1);
        line += 1;
        assert(indices@ =~= Seq::new(2 * line as nat, |i: int| ((i + 1) / 2) as u32));
    }
    indices
}

/// The indices of a triangle list over `vertex_count` vertices, counted from
/// `base_index`: each three vertices are one triangle.
pub fn triangle_list_indices(base_index: u16, vertex_count: usize) -> (indices: Vec<u16>)
    requires
        base_index + 3 * chunks(vertex_count as nat, 3) <= u16::MAX + 1,
    ensures
        indices@ == Seq::new(
            3 * chunks(vertex_count as nat, 3),
            |i: int| (base_index + i) as u16,
        ),
{
    let triangles = vertex_count / 3 + (if vertex_count % 3 == 0 {
        0
    } else {
        1
    });
    let mut indices: Vec<u16> = Vec::new();
    let mut triangle: usize = 0;
    while triangle < triangles
        invariant
            triangle <= triangles,
            triangles == chunks(vertex_count as nat, 3),
            base_index + 3 * triangles <= u16::MAX + 1,
            indices@ == Seq::new(3 * triangle as nat, |i: int| (base_index + i) as u16),
        decreases triangles - triangle,
    {
        let first = base_index + (3 * triangle) as u16;
        indices.push(first);
        indices.push(first + 1);
        indices.push(first + 2);
        triangle += 1;
        assert(indices@ =~= Seq::new(3 * triangle as nat, |i: int| (base_index + i) as u16));
    }
    indices
}

/// The index at position `i` of a triangle fan that starts at `base_index`.
pub open spec fn fan_index(base_index: u16, i: int) -> u16 {
    if i % 3 == 0 {
        base_index
    } else {
        (base_index + i / 3 + i % 3) as u16
    }
}

/// The indices of a triangle fan over `vertex_count` vertices, counted from
/// `base_index`: the first vertex and each two neighbours after it are one triangle.
pub fn triangle_fan_indices(base_index: u16, vertex_count: usize) -> (indices: Vec<u16>)
    requires
        2 <= vertex_count,
        base_index + vertex_count - 1 <= u16::MAX,
    ensures
        indices@ == Seq::new(
            3 * (vertex_count - 2) as nat,
            |i: int| fan_index(base_index, i),
        ),
{
    let mut indices: Vec<u16> = Vec::new();
    let mut triangle: usize = 0;
    while triangle < vertex_count - 2
        invariant
            triangle <= vertex_count - 2,
            base_index + vertex_count - 1 <= u16::MAX,
            indices@ == Seq::new(3 * triangle as nat, |i: int| fan_index(base_index, i)),
        decreases vertex_count - 2 - triangle,
    {
        let current = base_index + triangle as u16;
        indices.push(base_index);
        indices.push(current + 1);
        indices.push(current + 2);
        triangle += 1;
        assert(indices@ =~= Seq::new(3 * triangle as nat, |i: int| fan_index(base_index, i)));
    }
    indices
}

/// The lines of instance `mesh_instance` of a mesh of `line_count` lines.
pub fn line_instances(mesh_instance: u32, line_count: u32) -> (lines: Vec<LineInstanceData>)
    ensures
        lines@ == Seq::new(
            line_count as nat,
            |i: int| LineInstanceData { mesh_instance, line_index: i as u32 },
        ),
{
    let mut lines: Vec<LineInstanceData> = Vec::new();
    let mut line: u32 = 0;
    while line < line_count
        invariant
            line <= line_count,
            lines@ == Seq::new(
                line as nat,
                |i: int| LineInstanceData { mesh_instance, line_index: i as u32 },
            ),
        decreases line_count - line,
    {
        lines.push(LineInstanceData { mesh_instance, line_index: line });
        line += 1;
        assert(lines@ =~= Seq::new(
            line as nat,
            |i: int| LineInstanceData { mesh_instance, line_index: i as u32 },
        ));
    }
    lines
}

/// The size in bytes of one vertex.
pub const VERTEX_SIZE: u64 = 48;

/// The size in bytes of one line index.
pub const LINE_INDEX_SIZE: u64 = 4;

/// The size in bytes of the record of one line mesh.
pub const LINE_MESH_SIZE: u64 = 16;

/// The size in bytes of the record of one triangle mesh.
pub const TRIANGLE_MESH_SIZE: u64 = 20;

/// The size in bytes of one instance of a mesh, of lines or of triangles.
pub const MESH_INSTANCE_SIZE: u64 = 48;

/// The size in bytes of the record of one line of an instance.
pub const LINE_INSTANCE_SIZE: u64 = 8;

/// Within an instance of a line mesh, the byte at which the number of its mesh lies.
pub const INSTANCE_MESH_OFFSET: u64 = 12;

/// Within an instance, the byte at which its rotation lies.
pub const INSTANCE_ROTATION_OFFSET: u64 = 16;

/// Within an instance, the byte at which its scale lies.
pub const INSTANCE_SCALE_OFFSET: u64 = 32;

/// How far the buffers that the meshes share are filled: for each buffer the number of
/// elements that it holds. New data goes behind what is there.
pub struct BufferHeads {
    pub vertices: u64,
    pub triangle_indices: u64,
    pub line_indices: u64,
    pub triangle_meshes: u64,
    pub line_meshes: u64,
    pub line_mesh_instances: u64,
    pub line_instances: u64,
    /// For each triangle mesh, the number of its instances.
    pub triangle_mesh_instances: Vec<u64>,
    /// The number of instances that the buffer has room for per triangle mesh.
    pub instances_per_triangle_mesh: u64,
}

/// Where the parts of a new line mesh go.
pub struct LineMeshSlot {
    /// The byte at which its vertices go in the vertex buffer.
    pub vertices_at: u64,
    /// The byte at which its indices go in the line index buffer.
    pub indices_at: u64,
    /// The byte at which its record goes in the line mesh buffer.
    pub record_at: u64,
    pub record: LineMeshData,
}

/// Where the parts of a new instance of a line mesh go.
pub struct LineMeshInstanceSlot {
    pub position_at: u64,
    pub mesh_at: u64,
    pub rotation_at: u64,
    pub scale_at: u64,
    /// The byte at which the records of its lines go in the line instance buffer.
    pub lines_at: u64,
    pub lines: Vec<LineInstanceData>,
}

/// Where the parts of a new triangle mesh go.
pub struct TriangleMeshSlot {
    /// The byte at which its vertices go in the vertex buffer.
    pub vertices_at: u64,
    /// The byte at which its indices go in the triangle index buffer.
    pub indices_at: u64,
    /// Its indices, padded to the alignment of buffer copies.
    pub indices: Vec<u16>,
}

/// Where the record of a new triangle mesh goes.
pub struct TriangleMeshRecordSlot {
    pub record_at: u64,
    pub record: TriangleMeshData,
    /// The number of the mesh.
    pub mesh: u64,
}

/// Where the parts of a new instance of a triangle mesh go.
pub struct TriangleMeshInstanceSlot {
    pub position_at: u64,
    pub rotation_at: u64,
    pub scale_at: u64,
}

impl BufferHeads {
    /// Every triangle mesh has its count of instances.
    pub open spec fn wf(&self) -> bool {
        self.triangle_mesh_instances.len() == self.triangle_meshes
    }

    /// The heads of empty buffers.
    pub fn new(instances_per_triangle_mesh: u64) -> (r: BufferHeads)
        ensures
            r.wf(),
            r.vertices == 0 && r.triangle_indices == 0 && r.line_indices == 0,
            r.triangle_meshes == 0 && r.line_meshes == 0,
            r.line_mesh_instances == 0 && r.line_instances == 0,
            r.triangle_mesh_instances@ == Seq::<u64>::empty(),
            r.instances_per_triangle_mesh == instances_per_triangle_mesh,
    {
        BufferHeads {
            vertices: 0,
            triangle_indices: 0,
            line_indices: 0,
            triangle_meshes: 0,
            line_meshes: 0,
            line_mesh_instances: 0,
            line_instances: 0,
            triangle_mesh_instances: Vec::new(),
            instances_per_triangle_mesh,
        }
    }

    /// Makes room for `vertex_count` vertices and returns the byte at which they go.
    pub fn vertices_bundle(&mut self, vertex_count: usize) -> (at: u64)
        requires
            VERTEX_SIZE * (old(self).vertices + vertex_count) <= u64::MAX,
        ensures
            at == VERTEX_SIZE * old(self).vertices,
            *final(self) == (BufferHeads {
                vertices: (old(self).vertices + vertex_count) as u64,
                ..*old(self)
            }),
    {
        let at = VERTEX_SIZE * self.vertices;
        self.vertices = self.vertices + vertex_count as u64;
        at
    }

    /// Makes room for `index_count` line indices and returns the byte at which they
    /// go.
    pub fn line_indices_bundle(&mut self, index_count: usize) -> (at: u64)
        requires
            LINE_INDEX_SIZE * (old(self).line_indices + index_count) <= u64::MAX,
        ensures
            at == LINE_INDEX_SIZE * old(self).line_indices,
            *final(self) == (BufferHeads {
                line_indices: (old(self).line_indices + index_count) as u64,
                ..*old(self)
            }),
    {
        let at = LINE_INDEX_SIZE * self.line_indices;
        self.line_indices = self.line_indices + index_count as u64;
        at
    }

    /// Makes room for the record of a line mesh and returns the byte at which it goes.
    pub fn line_mesh_data_bundle(&mut self) -> (at: u64)
        requires
            LINE_MESH_SIZE * (old(self).line_meshes + 1) <= u64::MAX,
        ensures
            at == LINE_MESH_SIZE * old(self).line_meshes,
            *final(self) == (BufferHeads {
                line_meshes: (old(self).line_meshes + 1) as u64,
                ..*old(self)
            }),
    {
        let at = LINE_MESH_SIZE * self.line_meshes;
        self.line_meshes = self.line_meshes + 1;
        at
    }

    /// Makes room for a line mesh of `vertex_count` vertices and `index_count` indices:
    /// the vertices and indices go behind those that are there, and the record of the
    /// mesh says where they begin and how many they are.
    pub fn line_mesh_bundle(&mut self, vertex_count: usize, index_count: usize) -> (slot:
        LineMeshSlot)
        requires
            old(self).vertices + vertex_count <= u32::MAX,
            old(self).line_indices + index_count <= u32::MAX,
            old(self).line_meshes < u32::MAX,
        ensures
            slot.vertices_at == VERTEX_SIZE * old(self).vertices,
            slot.indices_at == LINE_INDEX_SIZE * old(self).line_indices,
            slot.record_at == LINE_MESH_SIZE * old(self).line_meshes,
            slot.record.vertex_offset == old(self).vertices,
            slot.record.vertex_count == vertex_count,
            slot.record.index_offset == old(self).line_indices,
            slot.record.index_count == index_count,
            *final(self) == (BufferHeads {
                vertices: (old(self).vertices + vertex_count) as u64,
                line_indices: (old(self).line_indices + index_count) as u64,
                line_meshes: (old(self).line_meshes + 1) as u64,
                ..*old(self)
            }),
    {
        let record = LineMeshData {
            vertex_offset: self.vertices as u32,
            vertex_count: vertex_count as u32,
            index_offset: self.line_indices as u32,
            index_count: index_count as u32,
        };
        let vertices_at = self.vertices_bundle(vertex_count);
        let indices_at = self.line_indices_bundle(index_count);
        let record_at = self.line_mesh_data_bundle();
        LineMeshSlot { vertices_at, indices_at, record_at, record }
    }

    /// Makes room for an instance of a line mesh with `line_count` lines: the instance
    /// itself and the records of its lines.
    pub fn line_mesh_instance_bundle(&mut self, line_count: u32) -> (slot: LineMeshInstanceSlot)
        requires
            old(self).line_mesh_instances < u32::MAX,
            LINE_INSTANCE_SIZE * (old(self).line_instances + line_count) <= u64::MAX,
        ensures
            slot.position_at == MESH_INSTANCE_SIZE * old(self).line_mesh_instances,
            slot.mesh_at == slot.position_at + INSTANCE_MESH_OFFSET,
            slot.rotation_at == slot.position_at + INSTANCE_ROTATION_OFFSET,
            slot.scale_at == slot.position_at + INSTANCE_SCALE_OFFSET,
            slot.lines_at == LINE_INSTANCE_SIZE * old(self).line_instances,
            slot.lines@ == Seq::new(
                line_count as nat,
                |i: int|
                    LineInstanceData {
                        mesh_instance: old(self).line_mesh_instances as u32,
                        line_index: i as u32,
                    },
            ),
            *final(self) == (BufferHeads {
                line_mesh_instances: (old(self).line_mesh_instances + 1) as u64,
                line_instances: (old(self).line_instances + line_count) as u64,
                ..*old(self)
            }),
    {
        let position_at = MESH_INSTANCE_SIZE * self.line_mesh_instances;
        let lines = line_instances(self.line_mesh_instances as u32, line_count);
        let lines_at = LINE_INSTANCE_SIZE * self.line_instances;
        self.line_mesh_instances = self.line_mesh_instances + 1;
        self.line_instances = self.line_instances + line_count as u64;
        LineMeshInstanceSlot {
            position_at,
            mesh_at: position_at + INSTANCE_MESH_OFFSET,
            rotation_at: position_at + INSTANCE_ROTATION_OFFSET,
            scale_at: position_at + INSTANCE_SCALE_OFFSET,
            lines_at,
            lines,
        }
    }

    /// Makes room for a triangle mesh of `vertex_count` vertices and the given
    /// indices, which are padded to the alignment of buffer copies.
    pub fn triangle_mesh_bundle(&mut self, vertex_count: usize, indices: Vec<u16>) -> (slot:
        TriangleMeshSlot)
        requires
            VERTEX_SIZE * (old(self).vertices + vertex_count) <= u64::MAX,
            TRIANGLE_INDEX_SIZE * (old(self).triangle_indices + indices.len() + 3) <= u64::MAX,
        ensures
            slot.vertices_at == VERTEX_SIZE * old(self).vertices,
            slot.indices_at == TRIANGLE_INDEX_SIZE * old(self).triangle_indices,
            slot.indices@ == padded(indices@),
            *final(self) == (BufferHeads {
                vertices: (old(self).vertices + vertex_count) as u64,
                triangle_indices: (old(self).triangle_indices + padded(indices@).len()) as u64,
                ..*old(self)
            }),
    {
        let mut indices = indices;
        let vertices_at = self.vertices_bundle(vertex_count);
        pad_align_triangle_list(&mut indices);
        let indices_at = TRIANGLE_INDEX_SIZE * self.triangle_indices;
        self.triangle_indices = self.triangle_indices + indices.len() as u64;
        TriangleMeshSlot { vertices_at, indices_at, indices }
    }

    /// Makes room for the record of a triangle mesh, which so far has no instance.
    pub fn triangle_mesh_data_bundle(
        &mut self,
        vertex_count: u32,
        instance_count: u32,
        index_offset: u32,
        vertex_offset: u32,
    ) -> (slot: TriangleMeshRecordSlot)
        requires
            old(self).wf(),
            TRIANGLE_MESH_SIZE * (old(self).triangle_meshes + 1) <= u64::MAX,
        ensures
            final(self).wf(),
            slot.record_at == TRIANGLE_MESH_SIZE * old(self).triangle_meshes,
            slot.mesh == old(self).triangle_meshes,
            slot.record.vertex_count == vertex_count,
            slot.record.instance_count == instance_count,
            slot.record.index_offset == index_offset,
            slot.record.vertex_offset == vertex_offset,
            slot.record._pad == 0,
            final(self).triangle_meshes == old(self).triangle_meshes + 1,
            final(self).triangle_mesh_instances@ == old(self).triangle_mesh_instances@.push(0),
            final(self).vertices == old(self).vertices,
            final(self).triangle_indices == old(self).triangle_indices,
            final(self).line_indices == old(self).line_indices,
            final(self).line_meshes == old(self).line_meshes,
            final(self).line_mesh_instances == old(self).line_mesh_instances,
            final(self).line_instances == old(self).line_instances,
            final(self).instances_per_triangle_mesh == old(self).instances_per_triangle_mesh,
    {
        let record = TriangleMeshData {
            vertex_count,
            instance_count,
            index_offset,
            vertex_offset,
            _pad: 0,
        };
        let mesh = self.triangle_meshes;
        let record_at = TRIANGLE_MESH_SIZE * mesh;
        self.triangle_meshes = mesh + 1;
        self.triangle_mesh_instances.push(0);
        TriangleMeshRecordSlot { record_at, record, mesh }
    }

    /// The place of instance `instance` of triangle mesh `mesh` in the instance buffer,
    /// counted in instances: each mesh has its own stretch of the buffer.
    pub open spec fn instance_place(&self, mesh: u32, instance: u64) -> int {
        instance + mesh * self.instances_per_triangle_mesh
    }

    /// Makes room for one more instance of triangle mesh `mesh`.
    pub fn triangle_mesh_instance_data_bundle(&mut self, mesh: u32) -> (slot:
        TriangleMeshInstanceSlot)
        requires
            old(self).wf(),
            mesh < old(self).triangle_meshes,
            mesh * old(self).instances_per_triangle_mesh <= u32::MAX,
            MESH_INSTANCE_SIZE * (old(self).instance_place(
                mesh,
                old(self).triangle_mesh_instances[mesh as int],
            ) + 1) <= u64::MAX,
        ensures
            final(self).wf(),
            slot.position_at == MESH_INSTANCE_SIZE * old(self).instance_place(
                mesh,
                old(self).triangle_mesh_instances[mesh as int],
            ),
            slot.rotation_at == slot.position_at + INSTANCE_ROTATION_OFFSET,
            slot.scale_at == slot.position_at + INSTANCE_SCALE_OFFSET,
            final(self).triangle_mesh_instances@ == old(self).triangle_mesh_instances@.update(
                mesh as int,
                (old(self).triangle_mesh_instances[mesh as int] + 1) as u64,
            ),
            final(self).triangle_meshes == old(self).triangle_meshes,
            final(self).vertices == old(self).vertices,
            final(self).triangle_indices == old(self).triangle_indices,
            final(self).line_indices == old(self).line_indices,
            final(self).line_meshes == old(self).line_meshes,
            final(self).line_mesh_instances == old(self).line_mesh_instances,
            final(self).line_instances == old(self).line_instances,
            final(self).instances_per_triangle_mesh == old(self).instances_per_triangle_mesh,
    {
        let head = self.triangle_mesh_instances[mesh as usize];
        let stretch = (mesh as u64 * self.instances_per_triangle_mesh) as u32;
        let position_at = MESH_INSTANCE_SIZE * (head + stretch as u64);
        self.triangle_mesh_instances.set(mesh as usize, head + 1);
        TriangleMeshInstanceSlot {
            position_at,
            rotation_at: position_at + INSTANCE_ROTATION_OFFSET,
            scale_at: position_at + INSTANCE_SCALE_OFFSET,
        }
    }
}

} // verus!
