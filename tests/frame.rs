use raytrace_core::present::{
    choose_present_mode, desired_image_count, present_action, ready_to_trace, surface_extent, PresentAction,
    PresentMode, PresentOutcome,
};
use raytrace_core::sbt::{compute_layout, GroupProperties};
use raytrace_core::table_bytes::{encode_table, group_handles_from_bytes, HitRecord};

#[test]
fn present_outcomes() {
    assert_eq!(present_action(PresentOutcome::Presented), PresentAction::Continue);
    assert_eq!(present_action(PresentOutcome::OutOfDate), PresentAction::Recreate);
    assert_eq!(present_action(PresentOutcome::Suboptimal), PresentAction::Recreate);
    assert_eq!(present_action(PresentOutcome::Failed(-4)), PresentAction::Fatal(-4));
}

#[test]
fn swapchain_configuration() {
    assert_eq!(desired_image_count(2, 0), 3);
    assert_eq!(desired_image_count(2, 8), 3);
    assert_eq!(desired_image_count(3, 3), 3);
    assert_eq!(surface_extent(u32::MAX, u32::MAX, 1280, 720), (1280, 720));
    assert_eq!(surface_extent(800, 600, 1280, 720), (800, 600));
    assert_eq!(choose_present_mode(&vec![PresentMode::Fifo, PresentMode::Mailbox]), PresentMode::Mailbox);
    assert_eq!(choose_present_mode(&vec![PresentMode::Immediate]), PresentMode::Fifo);
    assert_eq!(choose_present_mode(&vec![]), PresentMode::Fifo);
}

#[test]
fn tracing_waits_for_every_input() {
    assert!(ready_to_trace(true, true, true, 0x100));
    assert!(!ready_to_trace(true, true, true, 0));
    assert!(!ready_to_trace(true, false, true, 0x100));
    assert!(!ready_to_trace(false, true, true, 0x100));
    assert!(!ready_to_trace(true, true, false, 0x100));
}

#[test]
fn group_handles_split_in_order() {
    let data: Vec<u8> = (0..128u32).map(|i| (i / 32) as u8).collect();
    let h = group_handles_from_bytes(&data, 32).unwrap();
    assert_eq!(h.raygen, vec![0u8; 32]);
    assert_eq!(h.miss, vec![1u8; 32]);
    assert_eq!(h.triangle_hit, vec![2u8; 32]);
    assert_eq!(h.sphere_hit, vec![3u8; 32]);
    assert!(group_handles_from_bytes(&data, 16).is_none());
    assert!(group_handles_from_bytes(&data[..96].to_vec(), 32).is_none());
    let p = GroupProperties { handle_size: 32, handle_alignment: 32, base_alignment: 64 };
    let l = compute_layout(p, 1, 0).unwrap();
    let out = encode_table(&l, &h.raygen, &h.miss, &h.triangle_hit, &h.sphere_hit, &vec![HitRecord::Sphere]);
    assert!(out[128..160].iter().all(|b| *b == 3));
}

use raytrace_core::device::{select_device, DeviceCandidate, QueueFamily};

fn family(graphics: bool, presents_to_surface: bool) -> QueueFamily {
    QueueFamily { graphics, presents_to_surface }
}

#[test]
fn first_usable_device_and_family() {
    let devices = vec![
        DeviceCandidate { preferred_vendor: false, families: vec![family(true, true)] },
        DeviceCandidate { preferred_vendor: true, families: vec![family(true, false), family(false, true)] },
        DeviceCandidate {
            preferred_vendor: true,
            families: vec![family(false, false), family(true, true), family(true, true)],
        },
    ];
    assert_eq!(select_device(&devices), Some((2, 1)));
    assert_eq!(select_device(&devices[..2].iter().map(|d| DeviceCandidate {
        preferred_vendor: d.preferred_vendor,
        families: d.families.clone(),
    }).collect()), None);
    assert_eq!(select_device(&vec![]), None);
}
