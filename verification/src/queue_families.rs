//! Queue-family selection.
//!
//! The platform layer queries the device for its queue families and their
//! capabilities; the selection of which family serves graphics work and
//! which serves transfers is plain logic and lives here.  Graphics work
//! needs a family that can also present to the surface; transfers prefer a
//! dedicated (non-graphics) family when one exists.

use vstd::prelude::*;

verus! {

/// What one queue family offers, as the platform layer reports it.
#[derive(Clone, Copy, Debug, PartialEq, Eq, Structural)]
pub struct QueueFamilyInfo {
    /// How many queues the family provides.
    pub queue_count: u32,
    /// The family accepts graphics commands.
    pub supports_graphics: bool,
    /// The family accepts transfer commands.
    pub supports_transfer: bool,
    /// The family can present to the window surface.
    pub supports_surface: bool,
}

/// The family can serve as the graphics queue: it has queues, takes
/// graphics commands and can present.
pub open spec fn graphics_ok(f: QueueFamilyInfo) -> bool {
    f.queue_count > 0 && f.supports_graphics && f.supports_surface
}

/// The family can serve as the transfer queue.
pub open spec fn transfer_ok(f: QueueFamilyInfo) -> bool {
    f.queue_count > 0 && f.supports_transfer
}

/// A transfer-capable family that does not also do graphics — preferred,
/// so transfers do not compete with rendering.
pub open spec fn dedicated_transfer(f: QueueFamilyInfo) -> bool {
    transfer_ok(f) && !f.supports_graphics
}

/// The queue-family indices the engine drives its queues from.
#[derive(Clone, Copy, Debug, PartialEq, Eq, Structural)]
pub struct QueueFamilies {
    pub graphics_index: Option<u32>,
    pub transfer_index: Option<u32>,
}

impl QueueFamilies {
    /// Chooses the graphics and transfer families from what the device
    /// offers: for graphics, the last family that has queues, does
    /// graphics and can present; for transfers, the last dedicated
    /// transfer family if one exists, otherwise the first family that can
    /// transfer at all; `None` where no family qualifies.
    pub fn select(families: &Vec<QueueFamilyInfo>) -> (qf: QueueFamilies)
        requires
            families@.len() <= u32::MAX,
        ensures
            (qf.graphics_index matches Some(g) ==> g < families@.len() && graphics_ok(
                families@[g as int],
            ) && forall|j: int|
                g < j < families@.len() ==> !graphics_ok(#[trigger] families@[j])),
            qf.graphics_index is None ==> forall|j: int|
                0 <= j < families@.len() ==> !graphics_ok(#[trigger] families@[j]),
            qf.graphics_index is Some <== exists|j: int|
                0 <= j < families@.len() && graphics_ok(#[trigger] families@[j]),
            (qf.transfer_index matches Some(t) ==> t < families@.len() && transfer_ok(
                families@[t as int],
            )),
            qf.transfer_index is None ==> forall|j: int|
                0 <= j < families@.len() ==> !transfer_ok(#[trigger] families@[j]),
            qf.transfer_index is Some <== exists|j: int|
                0 <= j < families@.len() && transfer_ok(#[trigger] families@[j]),
            (qf.transfer_index matches Some(t) ==> (dedicated_transfer(families@[t as int])
                ==> forall|j: int|
                t < j < families@.len() ==> !dedicated_transfer(#[trigger] families@[j]))),
            (qf.transfer_index matches Some(t) ==> (!dedicated_transfer(families@[t as int]) ==> (
            forall|j: int| 0 <= j < families@.len() ==> !dedicated_transfer(#[trigger] families@[j]))
                && forall|j: int| 0 <= j < t ==> !transfer_ok(#[trigger] families@[j]))),
    {
        let mut graphics_index: Option<u32> = None;
        let mut transfer_index: Option<u32> = None;
        let mut k: usize = 0;
        while k < families.len()
            invariant
                k <= families@.len(),
                families@.len() <= u32::MAX,
                (graphics_index matches Some(g) ==> g < k && graphics_ok(families@[g as int])
                    && forall|j: int| g < j < k ==> !graphics_ok(#[trigger] families@[j])),
                graphics_index is None ==> forall|j: int|
                    0 <= j < k ==> !graphics_ok(#[trigger] families@[j]),
                (transfer_index matches Some(t) ==> t < k && transfer_ok(families@[t as int])),
                transfer_index is None ==> forall|j: int|
                    0 <= j < k ==> !transfer_ok(#[trigger] families@[j]),
                (transfer_index matches Some(t) ==> (dedicated_transfer(families@[t as int])
                    ==> forall|j: int|
                    t < j < k ==> !dedicated_transfer(#[trigger] families@[j]))),
                (transfer_index matches Some(t) ==> (!dedicated_transfer(families@[t as int]) ==> (
                forall|j: int| 0 <= j < k ==> !dedicated_transfer(#[trigger] families@[j]))
                    && forall|j: int| 0 <= j < t ==> !transfer_ok(#[trigger] families@[j]))),
            decreases families@.len() - k,
        {
            let family = families[k];
            if family.queue_count > 0 {
                if family.supports_graphics && family.supports_surface {
                    graphics_index = Some(k as u32);
                }
                if family.supports_transfer {
                    if transfer_index.is_none() || !family.supports_graphics {
                        transfer_index = Some(k as u32);
                    }
                }
            }
            k = k + 1;
        }
        QueueFamilies { graphics_index, transfer_index }
    }
}

} // verus!
