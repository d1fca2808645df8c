use world_exchange::phosphor::assemblage::{
    line_instances, line_list_indices, line_strip_indices, pad_align_triangle_list,
    triangle_fan_indices, triangle_list_indices, BufferHeads, COPY_BUFFER_ALIGNMENT,
    TRIANGLE_INDEX_SIZE,
};
use world_exchange::physics::{keeps_own_transform, place_collider, BodyState, Placement};
use world_exchange::phosphor::components::{
    EventTransformComponent, LineMeshData, MoverEvent, Timer, TriangleMeshData,
};

fn padded(indices: Vec<u16>) -> Vec<u16> {
    let mut indices = indices;
    pad_align_triangle_list(&mut indices);
    indices
}

#[test]
fn padding_adds_one_degenerate_triangle_to_odd_lists() {
    assert_eq!(padded(vec![]), Vec::<u16>::new());
    assert_eq!(padded(vec![1, 2, 3]), vec![1, 2, 3, 0, 0, 0]);
    assert_eq!(padded(vec![1, 2, 3, 4, 5, 6]), vec![1, 2, 3, 4, 5, 6]);
    assert_eq!(padded(vec![9]), vec![9, 0, 0, 0]);
    assert_eq!(padded(vec![9, 8]), vec![9, 8]);
    assert_eq!(padded(padded(vec![7, 7, 7])), vec![7, 7, 7, 0, 0, 0]);
}

#[test]
fn padded_lists_are_aligned() {
    for length in 0..40u64 {
        let list = padded(vec![1; length as usize]);
        assert_eq!((TRIANGLE_INDEX_SIZE * list.len() as u64) % COPY_BUFFER_ALIGNMENT, 0);
        assert!(list.len() as u64 == length || list.len() as u64 == length + 3);
    }
}

#[test]
fn line_list_numbers_each_pair() {
    assert_eq!(line_list_indices(0), Vec::<u32>::new());
    assert_eq!(line_list_indices(1), vec![0, 1]);
    assert_eq!(line_list_indices(2), vec![0, 1]);
    assert_eq!(line_list_indices(3), vec![0, 1, 2, 3]);
    assert_eq!(line_list_indices(4), vec![0, 1, 2, 3]);
    assert_eq!(line_list_indices(24), (0..24).collect::<Vec<u32>>());
}

#[test]
fn line_strip_joins_neighbours() {
    assert_eq!(line_strip_indices(2), vec![0, 1]);
    assert_eq!(line_strip_indices(3), vec![0, 1, 1, 2]);
    assert_eq!(line_strip_indices(4), vec![0, 1, 1, 2, 2, 3]);
    assert_eq!(line_strip_indices(6).len(), 10);
}

#[test]
fn triangle_list_counts_from_the_base() {
    assert_eq!(triangle_list_indices(0, 0), Vec::<u16>::new());
    assert_eq!(triangle_list_indices(0, 3), vec![0, 1, 2]);
    assert_eq!(triangle_list_indices(5, 4), vec![5, 6, 7, 8, 9, 10]);
    assert_eq!(triangle_list_indices(5, 6), vec![5, 6, 7, 8, 9, 10]);
    assert_eq!(triangle_list_indices(u16::MAX - 2, 3), vec![u16::MAX - 2, u16::MAX - 1, u16::MAX]);
}

#[test]
fn triangle_fan_turns_around_the_first_vertex() {
    assert_eq!(triangle_fan_indices(0, 2), Vec::<u16>::new());
    assert_eq!(triangle_fan_indices(0, 3), vec![0, 1, 2]);
    assert_eq!(triangle_fan_indices(10, 5), vec![10, 11, 12, 10, 12, 13, 10, 13, 14]);
    assert_eq!(triangle_fan_indices(u16::MAX - 2, 3), vec![u16::MAX - 2, u16::MAX - 1, u16::MAX]);
}

#[test]
fn line_instances_number_the_lines() {
    let lines = line_instances(7, 3);
    assert_eq!(lines.len(), 3);
    for (index, line) in lines.iter().enumerate() {
        assert_eq!(line.mesh_instance, 7);
        assert_eq!(line.line_index, index as u32);
    }
    assert!(line_instances(1, 0).is_empty());
    assert_eq!(line_instances(0, 12).len(), 12);
}

#[test]
fn mesh_data_starts_at_zero() {
    let triangles = TriangleMeshData::default();
    assert_eq!(
        (
            triangles.vertex_count,
            triangles.instance_count,
            triangles.index_offset,
            triangles.vertex_offset,
            triangles._pad
        ),
        (0, 0, 0, 0, 0)
    );
    let lines = LineMeshData { vertex_offset: 1, vertex_count: 2, index_offset: 3, index_count: 4 };
    let copy = lines;
    assert_eq!(
        (copy.vertex_offset, copy.vertex_count, copy.index_offset, copy.index_count),
        (1, 2, 3, 4)
    );
}

#[test]
fn event_transform_marker_changes_its_types() {
    let unit: EventTransformComponent<(), ()> = EventTransformComponent::unit();
    let typed: EventTransformComponent<u8, bool> =
        unit.with_input_type::<u8>().with_output_type::<bool>();
    let _back: EventTransformComponent<(), bool> = typed.with_input_type::<()>();
    let _default: EventTransformComponent<i32, i64> = EventTransformComponent::default();
}

#[test]
fn mover_events_and_timers_are_plain_values() {
    let event = MoverEvent::Open;
    let copy = event;
    assert!(matches!(copy, MoverEvent::Open));
    assert!(matches!(MoverEvent::Close, MoverEvent::Close));
    let timer = Timer {
        timestamp: std::time::Instant::now(),
        duration: std::time::Duration::from_millis(5),
    };
    let same = timer;
    assert_eq!(same.duration, std::time::Duration::from_millis(5));
    assert_eq!(same.timestamp, timer.timestamp);
}

#[test]
fn buffers_fill_from_the_front() {
    let mut heads = BufferHeads::new(16);
    assert_eq!(heads.vertices_bundle(3), 0);
    assert_eq!(heads.vertices_bundle(2), 3 * 48);
    assert_eq!(heads.vertices, 5);
    assert_eq!(heads.line_indices_bundle(4), 0);
    assert_eq!(heads.line_indices_bundle(1), 16);
    assert_eq!(heads.line_indices, 5);
    assert_eq!(heads.line_mesh_data_bundle(), 0);
    assert_eq!(heads.line_mesh_data_bundle(), 16);
    assert_eq!(heads.line_meshes, 2);
}

#[test]
fn line_mesh_records_where_its_parts_begin() {
    let mut heads = BufferHeads::new(16);
    heads.vertices_bundle(10);
    heads.line_indices_bundle(6);
    let slot = heads.line_mesh_bundle(24, 24);
    assert_eq!(slot.vertices_at, 10 * 48);
    assert_eq!(slot.indices_at, 6 * 4);
    assert_eq!(slot.record_at, 0);
    assert_eq!(
        (
            slot.record.vertex_offset,
            slot.record.vertex_count,
            slot.record.index_offset,
            slot.record.index_count
        ),
        (10, 24, 6, 24)
    );
    assert_eq!((heads.vertices, heads.line_indices, heads.line_meshes), (34, 30, 1));
    let next = heads.line_mesh_bundle(2, 2);
    assert_eq!(next.record_at, 16);
    assert_eq!(next.record.vertex_offset, 34);
    assert_eq!(next.record.index_offset, 30);
}

#[test]
fn line_mesh_instance_lays_out_its_fields_and_lines() {
    let mut heads = BufferHeads::new(16);
    let first = heads.line_mesh_instance_bundle(12);
    assert_eq!(
        (first.position_at, first.mesh_at, first.rotation_at, first.scale_at, first.lines_at),
        (0, 12, 16, 32, 0)
    );
    assert_eq!(first.lines.len(), 12);
    assert_eq!((first.lines[11].mesh_instance, first.lines[11].line_index), (0, 11));
    let second = heads.line_mesh_instance_bundle(1);
    assert_eq!(
        (second.position_at, second.mesh_at, second.rotation_at, second.scale_at, second.lines_at),
        (48, 60, 64, 80, 12 * 8)
    );
    assert_eq!((second.lines[0].mesh_instance, second.lines[0].line_index), (1, 0));
    assert_eq!((heads.line_mesh_instances, heads.line_instances), (2, 13));
}

#[test]
fn triangle_mesh_pads_its_indices() {
    let mut heads = BufferHeads::new(16);
    let first = heads.triangle_mesh_bundle(16, vec![0, 1, 2]);
    assert_eq!((first.vertices_at, first.indices_at), (0, 0));
    assert_eq!(first.indices, vec![0, 1, 2, 0, 0, 0]);
    assert_eq!((heads.vertices, heads.triangle_indices), (16, 6));
    let second = heads.triangle_mesh_bundle(4, vec![0, 1, 2, 0, 2, 3]);
    assert_eq!((second.vertices_at, second.indices_at), (16 * 48, 12));
    assert_eq!(second.indices, vec![0, 1, 2, 0, 2, 3]);
    assert_eq!((heads.vertices, heads.triangle_indices), (20, 12));
}

#[test]
fn triangle_mesh_instances_have_a_stretch_per_mesh() {
    let mut heads = BufferHeads::new(16);
    let first = heads.triangle_mesh_data_bundle(72, 0, 0, 0);
    assert_eq!((first.record_at, first.mesh), (0, 0));
    assert_eq!((first.record.vertex_count, first.record.instance_count), (72, 0));
    let second = heads.triangle_mesh_data_bundle(36, 1, 72, 16);
    assert_eq!((second.record_at, second.mesh), (20, 1));
    assert_eq!((second.record.index_offset, second.record.vertex_offset, second.record._pad), (72, 16, 0));
    assert_eq!(heads.triangle_mesh_instances, vec![0, 0]);

    let a = heads.triangle_mesh_instance_data_bundle(1);
    assert_eq!((a.position_at, a.rotation_at, a.scale_at), (16 * 48, 16 * 48 + 16, 16 * 48 + 32));
    let b = heads.triangle_mesh_instance_data_bundle(1);
    assert_eq!(b.position_at, 17 * 48);
    let c = heads.triangle_mesh_instance_data_bundle(0);
    assert_eq!((c.position_at, c.rotation_at, c.scale_at), (0, 16, 32));
    assert_eq!(heads.triangle_mesh_instances, vec![1, 2]);
    assert_eq!(heads.triangle_meshes, 2);
}

#[test]
fn colliders_go_on_the_body_that_is_ready() {
    let ready = BodyState::Ready { index: 4, generation: 2 };
    let other = BodyState::Ready { index: 9, generation: 1 };
    assert_eq!(place_collider(None, None), Placement::Alone);
    assert_eq!(place_collider(Some(ready), None), Placement::OnBody { index: 4, generation: 2 });
    assert_eq!(place_collider(Some(ready), Some(other)), Placement::OnBody { index: 4, generation: 2 });
    assert_eq!(place_collider(Some(ready), Some(BodyState::Pending)), Placement::OnBody { index: 4, generation: 2 });
    assert_eq!(place_collider(Some(BodyState::Pending), None), Placement::Wait);
    assert_eq!(place_collider(Some(BodyState::Pending), Some(other)), Placement::Wait);
    assert_eq!(place_collider(None, Some(other)), Placement::OnBody { index: 9, generation: 1 });
    assert_eq!(place_collider(None, Some(BodyState::Pending)), Placement::Wait);
    assert!(keeps_own_transform(None));
    assert!(!keeps_own_transform(Some(ready)));
    assert!(!keeps_own_transform(Some(BodyState::Pending)));
}

#[test]
fn movers_close_while_something_is_inside() {
    assert!(matches!(MoverEvent::for_intersection(true), MoverEvent::Close));
    assert!(matches!(MoverEvent::for_intersection(false), MoverEvent::Open));
}
