use raytrace_core::aligned_size;
use raytrace_core::align::aligned_size_u64;
use raytrace_core::buffer::{make_buffer, Buffer, MemoryKind, ResizePlan};
use raytrace_core::destruction::CleanupEvent;
use raytrace_core::sbt::{assign_hit_records, compute_layout, layout_total_size, plan_table_buffer, GroupProperties};
use raytrace_core::table_bytes::{build_hit_region, encode_table, HitRecord, MeshHitData};

fn props() -> GroupProperties {
    GroupProperties { handle_size: 32, handle_alignment: 32, base_alignment: 64 }
}

#[test]
fn aligned_size_rounds_up() {
    assert_eq!(aligned_size(0, 64), 0);
    assert_eq!(aligned_size(1, 64), 64);
    assert_eq!(aligned_size(64, 64), 64);
    assert_eq!(aligned_size(65, 64), 128);
    assert_eq!(aligned_size(56, 32), 64);
    assert_eq!(aligned_size_u64(100, 16), 112);
}

#[test]
fn sbt_layout_exact_values() {
    let l = compute_layout(props(), 3, 0x1000).unwrap();
    assert_eq!(l.raygen.device_address, 0x1000);
    assert_eq!(l.raygen.stride, 64);
    assert_eq!(l.raygen.size, 64);
    assert_eq!(l.miss.device_address, 0x1040);
    assert_eq!(l.miss.stride, 32);
    assert_eq!(l.miss.size, 64);
    assert_eq!(l.hit.device_address, 0x1080);
    assert_eq!(l.hit.stride, 64);
    assert_eq!(l.hit.size, 192);
    assert_eq!(layout_total_size(&l), 320);
}

#[test]
fn sbt_regions_are_aligned() {
    let p = GroupProperties { handle_size: 32, handle_alignment: 16, base_alignment: 128 };
    for count in 0..10u64 {
        let l = compute_layout(p, count, 0).unwrap();
        for size in [l.raygen.size, l.miss.size, l.hit.size] {
            assert_eq!(size % 128, 0);
        }
        for stride in [l.raygen.stride, l.miss.stride, l.hit.stride] {
            assert_eq!(stride % 16, 0);
        }
    }
}

#[test]
fn sbt_recompute_is_idempotent() {
    let a = compute_layout(props(), 4, 0x2000).unwrap();
    let b = compute_layout(props(), 4, 0x2000).unwrap();
    assert_eq!(a, b);
    let size = layout_total_size(&a);
    let current = make_buffer(size, 0, 90, 0x9000, MemoryKind::HostVisible);
    assert_eq!(plan_table_buffer(&current, &b), ResizePlan::Keep);
}

#[test]
fn sbt_layout_overflow_is_refused() {
    assert!(compute_layout(props(), u64::MAX / 2, 0).is_none());
    assert!(compute_layout(props(), 1, u64::MAX - 10).is_none());
}

#[test]
fn hit_records_follow_the_sphere_record() {
    let m = assign_hit_records(&vec![10, 20, 30]);
    assert_eq!(m.len(), 3);
    assert_eq!(m[&10], 1);
    assert_eq!(m[&20], 2);
    assert_eq!(m[&30], 3);
}

#[test]
fn sbt_bytes_hold_handles_and_addresses() {
    let l = compute_layout(props(), 2, 0).unwrap();
    let raygen = vec![1u8; 32];
    let miss = vec![2u8; 32];
    let tri = vec![3u8; 32];
    let sphere = vec![4u8; 32];
    let records = vec![
        HitRecord::Sphere,
        HitRecord::Triangle {
            vertex_buffer: 0x0102_0304_0506_0708,
            index_buffer: 0xAA,
            geometry_to_index_offset: 0xBB00,
        },
    ];
    let out = encode_table(&l, &raygen, &miss, &tri, &sphere, &records);
    assert_eq!(out.len(), 256);
    assert!(out[0..32].iter().all(|b| *b == 1));
    assert!(out[32..64].iter().all(|b| *b == 0));
    assert!(out[64..96].iter().all(|b| *b == 2));
    assert!(out[128..160].iter().all(|b| *b == 4));
    assert!(out[192..224].iter().all(|b| *b == 3));
    assert_eq!(&out[224..232], &[8, 7, 6, 5, 4, 3, 2, 1]);
    assert_eq!(&out[232..240], &[0xAA, 0, 0, 0, 0, 0, 0, 0]);
    assert_eq!(&out[240..248], &[0, 0xBB, 0, 0, 0, 0, 0, 0]);
}

#[test]
fn table_buffer_replaced_when_size_changes() {
    let l = compute_layout(props(), 2, 0).unwrap();
    let absent = Buffer::null(0, MemoryKind::HostVisible);
    assert_eq!(plan_table_buffer(&absent, &l), ResizePlan::Replace { retire: None, nr_elements: 256 });
    let old = make_buffer(192, 0, 91, 0x9100, MemoryKind::HostVisible);
    assert_eq!(
        plan_table_buffer(&old, &l),
        ResizePlan::Replace { retire: Some(CleanupEvent::Buffer(91)), nr_elements: 256 }
    );
}

#[test]
fn hit_region_places_meshes_after_sphere() {
    let meshes = vec![
        MeshHitData { id: 7, vertex_buffer: 0x100, index_buffer: 0x200, geometry_to_index_offset: 0x300 },
        MeshHitData { id: 3, vertex_buffer: 0x400, index_buffer: 0x500, geometry_to_index_offset: 0x600 },
    ];
    let (records, offsets) = build_hit_region(&meshes);
    assert_eq!(records.len(), 3);
    assert_eq!(records[0], HitRecord::Sphere);
    assert_eq!(offsets[&7], 1);
    assert_eq!(offsets[&3], 2);
    assert_eq!(
        records[offsets[&3] as usize],
        HitRecord::Triangle { vertex_buffer: 0x400, index_buffer: 0x500, geometry_to_index_offset: 0x600 }
    );
}

#[test]
fn uncovered_table_bytes_are_zero() {
    let l = compute_layout(props(), 1, 0).unwrap();
    let h = vec![0xEEu8; 32];
    let out = encode_table(&l, &h, &h, &h, &h, &vec![HitRecord::Sphere]);
    assert!(out[32..64].iter().all(|b| *b == 0));
    assert!(out[96..128].iter().all(|b| *b == 0));
    assert!(out[160..].iter().all(|b| *b == 0));
    assert!(out[128..160].iter().all(|b| *b == 0xEE));
}
