use raytrace_core::assets::{extract_ids, resolve_dependencies, AssetChange, PreparedAssets};
use raytrace_core::destruction::{CleanupEvent, CleanupMessage, DestructionRing};
use raytrace_core::texture::{
    bytes_per_pixel, texture_bytes_match, texture_upload_bytes, SourcePixelFormat, TextureFormat,
};
use raytrace_core::{padd_pixel_bytes_rgba_unorm, GltfLoader};

#[test]
fn ring_waits_n_frames() {
    let mut ring = DestructionRing::new(3);
    assert_eq!(ring.frames_in_flight(), 3);
    ring.push(CleanupEvent::Buffer(1));
    assert!(ring.next_frame().is_empty());
    ring.push(CleanupEvent::Buffer(2));
    assert!(ring.next_frame().is_empty());
    assert_eq!(ring.next_frame(), vec![CleanupEvent::Buffer(1)]);
    assert_eq!(ring.next_frame(), vec![CleanupEvent::Buffer(2)]);
    assert!(ring.next_frame().is_empty());
}

#[test]
fn ring_never_executes_current_list() {
    let mut ring = DestructionRing::new(2);
    ring.push(CleanupEvent::Image(7));
    ring.push(CleanupEvent::ImageView(8));
    assert!(ring.next_frame().is_empty());
    assert_eq!(ring.next_frame(), vec![CleanupEvent::Image(7), CleanupEvent::ImageView(8)]);
}

#[test]
fn shutdown_executes_everything_once() {
    let mut ring = DestructionRing::new(3);
    let s = ring.step(CleanupMessage::Destroy(CleanupEvent::Buffer(1)));
    assert!(s.execute.is_empty() && !s.stop && !s.wait_idle);
    ring.step(CleanupMessage::NextFrame);
    ring.step(CleanupMessage::Destroy(CleanupEvent::Fence(2)));
    ring.step(CleanupMessage::Destroy(CleanupEvent::Pipeline(3)));
    let s = ring.step(CleanupMessage::Shutdown);
    assert!(s.stop && s.wait_idle);
    assert_eq!(s.execute, vec![CleanupEvent::Buffer(1), CleanupEvent::Fence(2), CleanupEvent::Pipeline(3)]);
    assert!(ring.drain_all().is_empty());
}

#[test]
fn publish_keeps_per_identity_order() {
    let mut assets: PreparedAssets<&str> = PreparedAssets::new();
    let retired = assets.publish(vec![(1, "a1"), (2, "b1"), (1, "a2"), (1, "a3")]);
    assert_eq!(retired, vec![(1, "a1"), (1, "a2")]);
    assert_eq!(assets.get(1), Some(&"a3"));
    assert_eq!(assets.get(2), Some(&"b1"));
    assert_eq!(assets.get(3), None);
}

#[test]
fn two_edits_leave_one_live_entry() {
    let mut assets: PreparedAssets<u32> = PreparedAssets::new();
    let first = assets.publish(vec![(42, 1)]);
    assert!(first.is_empty());
    let second = assets.publish(vec![(42, 2)]);
    assert_eq!(second, vec![(42, 1)]);
    assert_eq!(assets.len(), 1);
    assert_eq!(assets.get(42), Some(&2));
    let mut all = assets.take_all();
    all.sort();
    assert_eq!(all, vec![(42, 2)]);
    assert_eq!(assets.len(), 0);
}

#[test]
fn extraction_follows_notifications() {
    let events = vec![
        AssetChange::Created(1),
        AssetChange::Modified(1),
        AssetChange::Removed(2),
        AssetChange::Created(3),
    ];
    assert_eq!(extract_ids(&events), vec![1, 1, 3]);
}

#[test]
fn rgb_pixels_padded_to_rgba() {
    let out = padd_pixel_bytes_rgba_unorm(&[10, 20, 30, 40, 50, 60], 3, 2, 1);
    assert_eq!(out, vec![10, 20, 30, 255, 40, 50, 60, 255]);
    let out = padd_pixel_bytes_rgba_unorm(&[9, 8], 1, 1, 2);
    assert_eq!(out, vec![9, 0, 0, 255, 8, 0, 0, 255]);
}

#[test]
fn texture_formats() {
    assert_eq!(bytes_per_pixel(TextureFormat::R8G8B8A8Unorm), 4);
    assert_eq!(bytes_per_pixel(TextureFormat::R32G32B32A32Sfloat), 16);
    assert!(texture_bytes_match(TextureFormat::R8G8B8A8Unorm, 32, 4, 2));
    assert!(!texture_bytes_match(TextureFormat::R32G32B32A32Sfloat, 32, 4, 2));
    let (bytes, f) = texture_upload_bytes(SourcePixelFormat::R8G8B8, vec![1, 2, 3], 1, 1).unwrap();
    assert_eq!(bytes, vec![1, 2, 3, 255]);
    assert_eq!(f, TextureFormat::R8G8B8A8Unorm);
    let (bytes, _) = texture_upload_bytes(SourcePixelFormat::R8G8B8A8, vec![1, 2, 3, 4], 1, 1).unwrap();
    assert_eq!(bytes, vec![1, 2, 3, 4]);
    assert!(texture_upload_bytes(SourcePixelFormat::Other, vec![], 0, 0).is_none());
}

#[test]
fn gltf_loader_extensions() {
    assert_eq!(GltfLoader.extensions(), vec!["gltf", "glb"]);
}

#[test]
fn extraction_waits_for_dependencies() {
    assert_eq!(resolve_dependencies(vec![Some("rgen"), Some("rmiss"), Some("rchit")]), Some(vec!["rgen", "rmiss", "rchit"]));
    assert_eq!(resolve_dependencies(vec![Some("rgen"), None, Some("rchit")]), None);
    assert_eq!(resolve_dependencies::<u8>(vec![]), Some(vec![]));
}
