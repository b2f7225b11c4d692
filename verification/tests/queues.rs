//! Queue-family selection.

use render_core::queue_families::{QueueFamilies, QueueFamilyInfo};

fn family(count: u32, graphics: bool, transfer: bool, surface: bool) -> QueueFamilyInfo {
    QueueFamilyInfo {
        queue_count: count,
        supports_graphics: graphics,
        supports_transfer: transfer,
        supports_surface: surface,
    }
}

#[test]
fn no_families_selects_nothing() {
    let qf = QueueFamilies::select(&Vec::new());
    assert_eq!(qf.graphics_index, None);
    assert_eq!(qf.transfer_index, None);
}

#[test]
fn graphics_needs_queues_and_surface_support() {
    let families = vec![
        family(0, true, true, true),   // no queues
        family(1, true, false, false), // cannot present
        family(1, false, true, true),  // no graphics
    ];
    let qf = QueueFamilies::select(&families);
    assert_eq!(qf.graphics_index, None);
    assert_eq!(qf.transfer_index, Some(2));
}

#[test]
fn last_suitable_graphics_family_wins() {
    let families = vec![
        family(1, true, true, true),
        family(1, false, true, false),
        family(2, true, false, true),
    ];
    let qf = QueueFamilies::select(&families);
    assert_eq!(qf.graphics_index, Some(2));
}

#[test]
fn dedicated_transfer_family_is_preferred() {
    let families = vec![
        family(1, true, true, true),  // combined family comes first
        family(1, false, true, false), // dedicated transfer
    ];
    let qf = QueueFamilies::select(&families);
    assert_eq!(qf.graphics_index, Some(0));
    assert_eq!(qf.transfer_index, Some(1));
}

#[test]
fn first_transfer_family_is_kept_without_a_dedicated_one() {
    let families = vec![
        family(1, true, true, true),
        family(1, true, true, true),
    ];
    let qf = QueueFamilies::select(&families);
    assert_eq!(qf.transfer_index, Some(0));
    assert_eq!(qf.graphics_index, Some(1));
}
