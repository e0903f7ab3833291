use raytrace_core::accel::{
    blas_build_steps, blas_finish_steps, build_flags, BlasStep, BuildKind, ALLOW_COMPACTION, PREFER_FAST_TRACE,
    build_ranges, compacted_size, geometry_index_offsets, has_primitives, padded_scratch_size,
    scratch_address, AccelerationStructure, AsHandle, BuildRange, TriangleBlas,
};
use raytrace_core::bindless::DescriptorSlots;
use raytrace_core::buffer::{
    buffer_byte_size, buffer_usage, make_buffer, needs_allocation, AllocationTable, Buffer, MemoryKind,
    SHADER_DEVICE_ADDRESS,
};
use raytrace_core::destruction::CleanupEvent;
use raytrace_core::frames::FrameCycle;
use raytrace_core::geometry::{check_mesh, extract_mesh_data, extract_mesh_sizes, GeometryDescr, GeometryError, PrimitiveData};
use raytrace_core::buffer::{plan_resize, ResizePlan};
use raytrace_core::scene::{pack_24_8, resolve_instances, Scene};
use std::collections::HashMap;

fn prim(vertices: usize, indices: Vec<u32>) -> PrimitiveData {
    PrimitiveData {
        vertex_count: vertices,
        position_count: vertices,
        normal_count: vertices,
        index_count: indices.len(),
        indices,
    }
}

#[test]
fn single_triangle_blas_geometry() {
    let prims = vec![prim(3, vec![0, 1, 2])];
    assert_eq!(check_mesh(&prims), Ok(()));
    let layout = extract_mesh_data(&prims);
    assert_eq!(layout.geometries.len(), 1);
    assert_eq!(layout.geometries[0].index_count, 3);
    assert_eq!(layout.geometries[0].first_index, 0);
    assert_eq!(layout.indices, vec![0, 1, 2]);
    let ranges = build_ranges(&layout.geometries);
    assert_eq!(ranges[0].primitive_count, 1);
    assert!(has_primitives(&ranges));
}

#[test]
fn non_triangle_index_count_fails() {
    let prims = vec![prim(3, vec![0, 1, 2]), prim(4, vec![0, 1, 2, 3])];
    assert_eq!(check_mesh(&prims), Err(GeometryError::Inconsistent { primitive: 1 }));
}

#[test]
fn reader_length_mismatch_fails() {
    let mut p = prim(3, vec![0, 1, 2]);
    p.normal_count = 2;
    assert_eq!(check_mesh(&vec![p]), Err(GeometryError::Inconsistent { primitive: 0 }));
}

#[test]
fn rebased_index_overflow_fails() {
    let prims = vec![prim(2, vec![0, 1, 1]), prim(3, vec![u32::MAX, 0, 1])];
    assert_eq!(check_mesh(&prims), Err(GeometryError::IndexOverflow { primitive: 1 }));
}

#[test]
fn primitives_share_one_blas() {
    let prims = vec![prim(3, vec![0, 1, 2]), prim(4, vec![0, 1, 2, 2, 3, 0])];
    assert_eq!(extract_mesh_sizes(&prims), (7, 9));
    assert_eq!(check_mesh(&prims), Ok(()));
    let layout = extract_mesh_data(&prims);
    assert_eq!(
        layout.geometries[1],
        GeometryDescr { first_vertex: 3, vertex_count: 4, first_index: 3, index_count: 6 }
    );
    assert_eq!(layout.indices, vec![0, 1, 2, 3, 4, 5, 5, 6, 3]);
    assert_eq!(geometry_index_offsets(&layout.geometries), vec![0, 3]);
    let ranges = build_ranges(&layout.geometries);
    assert_eq!(
        ranges[1],
        BuildRange { primitive_count: 2, primitive_offset: 12, first_vertex: 0, transform_offset: 0 }
    );
}

#[test]
fn empty_geometry_is_not_built() {
    assert_eq!(check_mesh(&vec![]), Ok(()));
    let layout = extract_mesh_data(&vec![]);
    assert!(!has_primitives(&build_ranges(&layout.geometries)));
}

#[test]
fn scratch_is_padded_and_aligned() {
    assert_eq!(padded_scratch_size(1000, 128), Some(1128));
    assert_eq!(padded_scratch_size(u64::MAX, 1), None);
    assert_eq!(scratch_address(1000, 128), 1024);
    assert_eq!(scratch_address(1024, 128), 1152);
}

#[test]
fn compaction_never_grows() {
    assert_eq!(compacted_size(4096, 1500), Some(1500));
    assert_eq!(compacted_size(4096, 4096), Some(4096));
    assert_eq!(compacted_size(4096, 5000), None);
    assert_eq!(compacted_size(4096, 0), None);
}

fn device_buffer(handle: u64) -> Buffer {
    make_buffer(16, 0, handle, handle * 0x100, MemoryKind::DeviceLocal)
}

#[test]
fn blas_destruction_order() {
    let blas = TriangleBlas {
        vertex_buffer: device_buffer(1),
        index_buffer: device_buffer(2),
        geometry_to_index_offset: device_buffer(3),
        geometry_to_material: device_buffer(4),
        textures: vec![(50, 51)],
        acceleration_structure: AccelerationStructure {
            handle: AsHandle::Built(9),
            buffer: device_buffer(5),
            address: 0x9000,
        },
    };
    assert_eq!(blas.get_reference(), 0x9000);
    assert_eq!(
        blas.destroy_events(),
        vec![
            CleanupEvent::ImageView(51),
            CleanupEvent::Image(50),
            CleanupEvent::Buffer(1),
            CleanupEvent::Buffer(2),
            CleanupEvent::Buffer(3),
            CleanupEvent::Buffer(4),
            CleanupEvent::AccelerationStructure(9),
            CleanupEvent::Buffer(5),
        ]
    );
}

#[test]
fn buffer_records() {
    assert!(!needs_allocation(0));
    assert!(needs_allocation(1));
    let null = Buffer::null(7, MemoryKind::HostVisible);
    assert!(null.is_null());
    assert!(!null.is_mappable());
    let b = make_buffer(4, 1, 77, 0x4000, MemoryKind::HostVisible);
    assert_eq!(b.usage, 1 | SHADER_DEVICE_ADDRESS);
    assert!(b.is_mappable());
    assert!(!device_buffer(3).is_mappable());
    assert_eq!(buffer_usage(0x10), 0x10 | 0x20000);
    assert_eq!(buffer_byte_size(5, 64), Some(320));
    assert_eq!(buffer_byte_size(u64::MAX, 2), None);
}

#[test]
fn build_then_destroy_leaves_allocator_unchanged() {
    let mut t = AllocationTable::new();
    t.register_buffer(1, 64);
    t.register_image(2, 128);
    let before_buffers = t.buffers.clone();
    let before_images = t.images.clone();
    for h in [10u64, 11, 12, 13] {
        t.register_buffer(h, h * 8);
    }
    assert_eq!(t.release_buffer(12), Some(96));
    for h in [13u64, 10, 11] {
        assert!(t.release_buffer(h).is_some());
    }
    assert_eq!(t.release_buffer(99), None);
    assert_eq!(t.buffers, before_buffers);
    assert_eq!(t.images, before_images);
    assert_eq!(t.release_image(2), Some(128));
}

#[test]
fn instance_buffer_grows_from_zero_then_stays() {
    let mut scene = Scene::new();
    assert!(!scene.is_ready());
    assert_eq!(scene.plan_instances(0), None);
    match scene.plan_instances(5) {
        Some(ResizePlan::Replace { retire, nr_elements }) => {
            assert_eq!(retire, None);
            assert_eq!(nr_elements, 5);
            scene.set_instance_buffer(make_buffer(nr_elements, 0, 40, 0x4000, MemoryKind::HostVisible));
        }
        other => panic!("expected a new instance buffer, got {:?}", other),
    }
    assert_eq!(scene.instance_buffer.nr_elements, 5);
    assert_eq!(scene.plan_instances(5), Some(ResizePlan::Keep));
    assert_eq!(
        scene.plan_instances(6),
        Some(ResizePlan::Replace { retire: Some(CleanupEvent::Buffer(40)), nr_elements: 6 })
    );
}

#[test]
fn tlas_is_rebuilt_each_frame() {
    let mut scene = Scene::new();
    assert_eq!(scene.retire_tlas(), None);
    assert_eq!(scene.plan_tlas_storage(2048), ResizePlan::Replace { retire: None, nr_elements: 2048 });
    scene.set_tlas_buffer(make_buffer(2048, 0, 60, 0x6000, MemoryKind::DeviceLocal));
    scene.set_tlas_built(61, 0x6100);
    assert!(scene.is_ready());
    assert_eq!(scene.retire_tlas(), Some(CleanupEvent::AccelerationStructure(61)));
    assert!(!scene.is_ready());
    assert_eq!(scene.plan_tlas_storage(2048), ResizePlan::Keep);
    assert_eq!(scene.plan_scratch(300), ResizePlan::Replace { retire: None, nr_elements: 300 });
    scene.set_scratch_buffer(make_buffer(300, 0, 62, 0x6200, MemoryKind::DeviceLocal));
    assert_eq!(scene.plan_scratch(300), ResizePlan::Keep);
    scene.set_tlas_built(63, 0x6300);
    assert_eq!(
        scene.destroy_events(),
        vec![CleanupEvent::AccelerationStructure(63), CleanupEvent::Buffer(60), CleanupEvent::Buffer(62)]
    );
}

#[test]
fn resize_plan_retires_old_buffer() {
    let b = make_buffer(3, 0, 8, 0x800, MemoryKind::DeviceLocal);
    assert_eq!(plan_resize(&b, 3), ResizePlan::Keep);
    assert_eq!(plan_resize(&b, 4), ResizePlan::Replace { retire: Some(CleanupEvent::Buffer(8)), nr_elements: 4 });
}

#[test]
fn packed_instance_fields() {
    assert_eq!(pack_24_8(5, 0xFF), 0xFF00_0005);
    assert_eq!(pack_24_8(0x0123_4567, 0x01), 0x0123_4567);
    assert_eq!(pack_24_8(0xFFFF_FFFF, 0), 0x00FF_FFFF);
}

#[test]
fn instances_skip_meshes_not_ready() {
    let mut blas = HashMap::new();
    blas.insert(100u64, 0xA000u64);
    blas.insert(200u64, 0xB000u64);
    let mut offsets = HashMap::new();
    offsets.insert(100u64, 1u32);
    offsets.insert(300u64, 3u32);
    let r = resolve_instances(2, 0x5000, &vec![300, 100, 200], &blas, &offsets);
    assert_eq!(r.len(), 3);
    assert_eq!(r[0].source, 0);
    assert_eq!(r[1].blas_reference, 0x5000);
    assert_eq!(r[1].custom_index_and_mask, 0xFF00_0001);
    assert_eq!(r[1].sbt_offset_and_flags, 0x0100_0000);
    assert_eq!(r[2].source, 3);
    assert_eq!(r[2].custom_index_and_mask, 0xFF00_0002);
    assert_eq!(r[2].sbt_offset_and_flags, 0x0100_0001);
    assert_eq!(r[2].blas_reference, 0xA000);
}

#[test]
fn descriptor_slots_are_memoized() {
    let mut d = DescriptorSlots::new();
    assert_eq!(d.slot_for(500), Some((0, true)));
    assert_eq!(d.slot_for(600), Some((1, true)));
    assert_eq!(d.slot_for(500), Some((0, false)));
    assert_eq!(d.slot_for(700), Some((2, true)));
}

#[test]
fn frame_sets_cycle() {
    let mut f = FrameCycle::new(3);
    assert_eq!(f.current_idx(), 0);
    f.cycle();
    f.cycle();
    assert_eq!(f.current_idx(), 2);
    f.cycle();
    assert_eq!(f.current_idx(), 0);
}

#[test]
fn tlas_update_plan_orders_retirements() {
    let mut scene = Scene::new();
    assert!(scene.plan_tlas_update(0, 1024, 256, 128).is_none());
    assert!(scene.plan_tlas_update(5, 1024, u64::MAX, 128).is_none());
    let u = scene.plan_tlas_update(5, 1024, 256, 128).unwrap();
    assert_eq!(u.instances, ResizePlan::Replace { retire: None, nr_elements: 5 });
    assert_eq!(u.storage, ResizePlan::Replace { retire: None, nr_elements: 1024 });
    assert_eq!(u.scratch, ResizePlan::Replace { retire: None, nr_elements: 384 });
    assert!(u.retire.is_empty());
    scene.set_instance_buffer(make_buffer(5, 0, 70, 0x7000, MemoryKind::HostVisible));
    scene.set_tlas_buffer(make_buffer(1024, 0, 71, 0x7100, MemoryKind::DeviceLocal));
    scene.set_scratch_buffer(make_buffer(384, 0, 72, 0x7200, MemoryKind::DeviceLocal));
    scene.set_tlas_built(73, 0x7300);
    let same = scene.plan_tlas_update(5, 1024, 256, 128).unwrap();
    assert_eq!(same.instances, ResizePlan::Keep);
    assert_eq!(same.storage, ResizePlan::Keep);
    assert_eq!(same.scratch, ResizePlan::Keep);
    assert_eq!(same.retire, vec![CleanupEvent::AccelerationStructure(73)]);
    let grown = scene.plan_tlas_update(6, 2048, 512, 128).unwrap();
    assert_eq!(
        grown.retire,
        vec![
            CleanupEvent::Buffer(70),
            CleanupEvent::AccelerationStructure(73),
            CleanupEvent::Buffer(71),
            CleanupEvent::Buffer(72),
        ]
    );
}

#[test]
fn null_buffers_are_not_destroyed() {
    let blas = TriangleBlas {
        vertex_buffer: device_buffer(1),
        index_buffer: device_buffer(2),
        geometry_to_index_offset: device_buffer(3),
        geometry_to_material: Buffer::null(0, MemoryKind::DeviceLocal),
        textures: vec![],
        acceleration_structure: AccelerationStructure::not_built(),
    };
    assert_eq!(
        blas.destroy_events(),
        vec![CleanupEvent::Buffer(1), CleanupEvent::Buffer(2), CleanupEvent::Buffer(3)]
    );
    assert!(Scene::new().destroy_events().is_empty());
}

#[test]
fn build_flags_are_exact() {
    assert_eq!(build_flags(BuildKind::MeshBlas), 0x6);
    assert_eq!(build_flags(BuildKind::MeshBlas), PREFER_FAST_TRACE | ALLOW_COMPACTION);
    assert_eq!(build_flags(BuildKind::Tlas), 0x4);
    assert_eq!(build_flags(BuildKind::ProceduralBlas), PREFER_FAST_TRACE);
}

#[test]
fn blas_steps_compact_before_destroying() {
    assert_eq!(
        blas_build_steps(),
        vec![BlasStep::UploadGeometry, BlasStep::Build, BlasStep::QueryCompactedSize]
    );
    assert_eq!(
        blas_finish_steps(4096, 1024),
        vec![BlasStep::CopyCompacted { size: 1024 }, BlasStep::DestroyUncompacted, BlasStep::UploadMaterials]
    );
    assert_eq!(blas_finish_steps(4096, 8192), vec![BlasStep::UploadMaterials]);
}
