//! Device-memory accounting.
//!
//! `VkAllocator` stands at the boundary to the device: it hands out
//! `Allocation` tokens for regions of device memory, creates buffer and image
//! resources, and guarantees that every region is released exactly once.  The
//! platform layer performs the raw device calls; the core tracks a budget (the
//! device's memory size), the bytes in use, and the set of live allocations
//! and resources, so that out-of-memory behaviour and leak-freedom are exact.

use vstd::prelude::*;

verus! {

/// Whether memory is host-visible (CPU-writable, mapped) or device-local.
#[derive(Clone, Copy, Debug, PartialEq, Eq, Structural)]
pub enum MemoryLocation {
    CpuToGpu,
    GpuOnly,
}

/// The fixed role a buffer is created for.
#[derive(Clone, Copy, Debug, PartialEq, Eq, Structural)]
pub enum BufferUsage {
    Vertex,
    Index,
    Uniform,
    Storage,
    Transfer,
}

/// Why an allocation request failed.
#[derive(Clone, Copy, Debug, PartialEq, Eq, Structural)]
pub enum AllocationError {
    /// No room left in the device-memory budget.
    OutOfMemory,
    /// The request was malformed (a zero-byte region).
    InvalidRequirements,
}

/// A token for one live region of device memory.  It is moved, never copied:
/// releasing it through [`VkAllocator::free`] consumes it, so a region cannot
/// be freed twice.
#[derive(Debug)]
pub struct Allocation {
    id: u64,
    size_in_bytes: u64,
    location: MemoryLocation,
    linear: bool,
}

impl Allocation {
    /// The identity of this region; never reused by its allocator.
    pub closed spec fn id(&self) -> int {
        self.id as int
    }

    /// The size of the region in bytes.
    pub closed spec fn size(&self) -> int {
        self.size_in_bytes as int
    }

    /// The locality class the region was requested with.
    pub closed spec fn location(&self) -> MemoryLocation {
        self.location
    }

    /// Whether the region was requested for linearly laid-out data.
    pub closed spec fn is_linear(&self) -> bool {
        self.linear
    }

    /// The size of the region in bytes.
    pub fn size_in_bytes(&self) -> (s: u64)
        ensures
            s as int == self.size(),
    {
        self.size_in_bytes
    }
}

/// A handle to a live buffer resource.
#[derive(Clone, Copy, Debug, PartialEq, Eq, Structural)]
pub struct BufferHandle {
    id: u64,
}

impl BufferHandle {
    /// The identity of the buffer resource.
    pub closed spec fn id(&self) -> int {
        self.id as int
    }
}

/// A handle to a live image resource.
#[derive(Clone, Copy, Debug, PartialEq, Eq, Structural)]
pub struct ImageHandle {
    id: u64,
}

impl ImageHandle {
    /// The identity of the image resource.
    pub closed spec fn id(&self) -> int {
        self.id as int
    }
}

/// Internal record of one live allocation.
struct LiveAllocation {
    id: u64,
    size_in_bytes: u64,
}

/// The bytes covered by a list of live allocations.
spec fn sum_sizes(s: Seq<LiveAllocation>) -> int
    decreases s.len(),
{
    if s.len() == 0 {
        0
    } else {
        sum_sizes(s.drop_last()) + s.last().size_in_bytes
    }
}

proof fn lemma_sum_push(s: Seq<LiveAllocation>, x: LiveAllocation)
    ensures
        sum_sizes(s.push(x)) == sum_sizes(s) + x.size_in_bytes,
{
    assert(s.push(x).drop_last() =~= s);
}

proof fn lemma_sum_nonneg(s: Seq<LiveAllocation>)
    ensures
        sum_sizes(s) >= 0,
    decreases s.len(),
{
    if s.len() > 0 {
        lemma_sum_nonneg(s.drop_last());
    }
}

proof fn lemma_sum_at_least(s: Seq<LiveAllocation>, i: int)
    requires
        0 <= i < s.len(),
    ensures
        sum_sizes(s) >= s[i].size_in_bytes,
    decreases s.len(),
{
    lemma_sum_nonneg(s.drop_last());
    if i < s.len() - 1 {
        lemma_sum_at_least(s.drop_last(), i);
    }
}

proof fn lemma_sum_update(s: Seq<LiveAllocation>, i: int, x: LiveAllocation)
    requires
        0 <= i < s.len(),
    ensures
        sum_sizes(s.update(i, x)) == sum_sizes(s) - s[i].size_in_bytes + x.size_in_bytes,
    decreases s.len(),
{
    if i == s.len() - 1 {
        assert(s.update(i, x).drop_last() =~= s.drop_last());
    } else {
        assert(s.update(i, x).drop_last() =~= s.drop_last().update(i, x));
        lemma_sum_update(s.drop_last(), i, x);
    }
}

/// Removing the entry at `i` by swapping the last entry into its place
/// lowers the covered bytes by exactly that entry's size.
proof fn lemma_sum_swap_remove(s: Seq<LiveAllocation>, i: int)
    requires
        0 <= i < s.len(),
    ensures
        sum_sizes(s.update(i, s.last()).drop_last()) == sum_sizes(s) - s[i].size_in_bytes,
{
    if i == s.len() - 1 {
        assert(s.update(i, s.last()).drop_last() =~= s.drop_last());
    } else {
        lemma_sum_update(s, i, s.last());
        let u = s.update(i, s.last());
        assert(u.last() == s.last());
        assert(sum_sizes(u) == sum_sizes(u.drop_last()) + u.last().size_in_bytes);
    }
}

/// Sub-allocates device memory and creates the resources that memory is
/// bound to.  Tracks every live allocation so each is freed exactly once and
/// the budget is never exceeded.
pub struct VkAllocator {
    budget: u64,
    used: u64,
    next_allocation_id: u64,
    next_buffer_id: u64,
    next_image_id: u64,
    live: Vec<LiveAllocation>,
    live_buffers: Vec<u64>,
    live_images: Vec<u64>,
}

impl VkAllocator {
    /// The device-memory budget this allocator was created with, in bytes.
    pub closed spec fn budget(&self) -> int {
        self.budget as int
    }

    /// The bytes covered by live allocations.
    pub closed spec fn used(&self) -> int {
        self.used as int
    }

    /// How many allocations are live.
    pub closed spec fn live_count(&self) -> nat {
        self.live@.len()
    }

    /// How many buffer resources are live.
    pub closed spec fn buffer_count(&self) -> nat {
        self.live_buffers@.len()
    }

    /// How many allocations have ever been issued; ids below this are never
    /// issued again.
    pub closed spec fn allocations_issued(&self) -> int {
        self.next_allocation_id as int
    }

    /// How many buffer resources have ever been created.
    pub closed spec fn buffers_issued(&self) -> int {
        self.next_buffer_id as int
    }

    /// How many image resources have ever been created.
    pub closed spec fn images_issued(&self) -> int {
        self.next_image_id as int
    }

    /// The token `a` denotes a live region of this allocator.
    pub closed spec fn lives(&self, a: Allocation) -> bool {
        exists|k: int|
            0 <= k < self.live@.len() && self.live@[k].id == a.id
                && self.live@[k].size_in_bytes == a.size_in_bytes
    }

    /// The buffer resource `b` is live.
    pub closed spec fn buffer_live(&self, b: BufferHandle) -> bool {
        self.live_buffers@.contains(b.id)
    }

    /// The image resource `m` is live.
    pub closed spec fn image_live(&self, m: ImageHandle) -> bool {
        self.live_images@.contains(m.id)
    }

    /// A fresh allocation id is still available.
    pub open spec fn can_issue_allocation(&self) -> bool {
        self.allocations_issued() < u64::MAX
    }

    /// A fresh buffer resource id is still available.
    pub open spec fn can_issue_buffer(&self) -> bool {
        self.buffers_issued() < u64::MAX
    }

    /// A fresh image resource id is still available.
    pub open spec fn can_issue_image(&self) -> bool {
        self.images_issued() < u64::MAX
    }

    /// Internal consistency: the byte count matches the live list, the budget
    /// is respected, and every id is unique and below its issue counter.
    pub closed spec fn wf(&self) -> bool {
        &&& self.used as int == sum_sizes(self.live@)
        &&& self.used <= self.budget
        &&& forall|i: int, j: int|
            0 <= i < j < self.live@.len() ==> self.live@[i].id != self.live@[j].id
        &&& forall|i: int| 0 <= i < self.live@.len() ==> (#[trigger] self.live@[i].id) < self.next_allocation_id
        &&& forall|i: int, j: int|
            0 <= i < j < self.live_buffers@.len() ==> self.live_buffers@[i] != self.live_buffers@[j]
        &&& forall|i: int| 0 <= i < self.live_buffers@.len() ==> (#[trigger] self.live_buffers@[i]) < self.next_buffer_id
        &&& forall|i: int, j: int|
            0 <= i < j < self.live_images@.len() ==> self.live_images@[i] != self.live_images@[j]
        &&& forall|i: int| 0 <= i < self.live_images@.len() ==> (#[trigger] self.live_images@[i]) < self.next_image_id
    }

    /// A live token's id is below the issue counter.
    pub proof fn lemma_live_id_bound(&self, a: Allocation)
        requires
            self.wf(),
            self.lives(a),
        ensures
            0 <= a.id() < self.allocations_issued(),
    {
    }

    /// A live buffer's id is below the issue counter.
    pub proof fn lemma_buffer_id_bound(&self, b: BufferHandle)
        requires
            self.wf(),
            self.buffer_live(b),
        ensures
            0 <= b.id() < self.buffers_issued(),
    {
        let k = choose|k: int|
            0 <= k < self.live_buffers@.len() && self.live_buffers@[k] == b.id;
        assert(self.live_buffers@[k] < self.next_buffer_id);
    }

    /// A fresh allocator for a device offering `budget` bytes: nothing
    /// allocated, no resources created.
    pub fn new(budget: u64) -> (a: VkAllocator)
        ensures
            a.wf(),
            a.budget() == budget,
            a.used() == 0,
            a.live_count() == 0,
            a.allocations_issued() == 0,
            a.buffers_issued() == 0,
            a.images_issued() == 0,
            forall|o: Allocation| !a.lives(o),
            forall|b: BufferHandle| !a.buffer_live(b),
            forall|m: ImageHandle| !a.image_live(m),
    {
        VkAllocator {
            budget,
            used: 0,
            next_allocation_id: 0,
            next_buffer_id: 0,
            next_image_id: 0,
            live: Vec::new(),
            live_buffers: Vec::new(),
            live_images: Vec::new(),
        }
    }

    /// Requests a region of `size_in_bytes` bytes.  Succeeds exactly when the
    /// request is well-formed (non-zero) and fits in the remaining budget;
    /// the token it returns is fresh and live, and nothing else changes.
    pub fn allocate(&mut self, size_in_bytes: u64, location: MemoryLocation, linear: bool) -> (r:
        Result<Allocation, AllocationError>)
        requires
            old(self).wf(),
            old(self).can_issue_allocation(),
        ensures
            final(self).wf(),
            final(self).budget() == old(self).budget(),
            final(self).buffers_issued() == old(self).buffers_issued(),
            final(self).images_issued() == old(self).images_issued(),
            forall|b: BufferHandle| final(self).buffer_live(b) == old(self).buffer_live(b),
            forall|m: ImageHandle| final(self).image_live(m) == old(self).image_live(m),
            r is Ok <==> size_in_bytes > 0 && old(self).used() + size_in_bytes <= old(
                self,
            ).budget(),
            match r {
                Ok(a) => {
                    &&& a.size() == size_in_bytes
                    &&& a.location() == location
                    &&& a.is_linear() == linear
                    &&& a.id() == old(self).allocations_issued()
                    &&& !old(self).lives(a)
                    &&& final(self).lives(a)
                    &&& final(self).used() == old(self).used() + size_in_bytes
                    &&& final(self).live_count() == old(self).live_count() + 1
                    &&& final(self).allocations_issued() == old(self).allocations_issued() + 1
                    &&& forall|o: Allocation|
                        o.id() != a.id() ==> final(self).lives(o) == old(self).lives(o)
                },
                Err(e) => {
                    &&& *final(self) == *old(self)
                    &&& (e == AllocationError::InvalidRequirements <==> size_in_bytes == 0)
                    &&& (e == AllocationError::OutOfMemory <==> size_in_bytes > 0 && old(
                        self,
                    ).used() + size_in_bytes > old(self).budget())
                },
            },
    {
        if size_in_bytes == 0 {
            return Err(AllocationError::InvalidRequirements);
        }
        if size_in_bytes > self.budget - self.used {
            return Err(AllocationError::OutOfMemory);
        }
        let id = self.next_allocation_id;
        self.next_allocation_id = id + 1;
        self.live.push(LiveAllocation { id, size_in_bytes });
        proof {
            lemma_sum_push(old(self).live@, LiveAllocation { id, size_in_bytes });
        }
        self.used = self.used + size_in_bytes;
        let a = Allocation { id, size_in_bytes, location, linear };
        proof {
            assert forall|o: Allocation| o.id() != a.id() implies self.lives(o) == old(
                self,
            ).lives(o) by {
                if old(self).lives(o) {
                    let k = choose|k: int|
                        0 <= k < old(self).live@.len() && old(self).live@[k].id == o.id && old(
                            self,
                        ).live@[k].size_in_bytes == o.size_in_bytes;
                    assert(self.live@[k].id == o.id);
                }
                if self.lives(o) {
                    let k = choose|k: int|
                        0 <= k < self.live@.len() && self.live@[k].id == o.id
                            && self.live@[k].size_in_bytes == o.size_in_bytes;
                    assert(k < self.live@.len() - 1);
                }
            }
        }
        Ok(a)
    }

    /// Releases a live region, consuming its token.  Exactly that region
    /// stops being live and its bytes return to the budget.
    pub fn free(&mut self, allocation: Allocation)
        requires
            old(self).wf(),
            old(self).lives(allocation),
        ensures
            final(self).wf(),
            final(self).budget() == old(self).budget(),
            final(self).allocations_issued() == old(self).allocations_issued(),
            final(self).buffers_issued() == old(self).buffers_issued(),
            final(self).images_issued() == old(self).images_issued(),
            forall|b: BufferHandle| final(self).buffer_live(b) == old(self).buffer_live(b),
            forall|m: ImageHandle| final(self).image_live(m) == old(self).image_live(m),
            final(self).used() == old(self).used() - allocation.size(),
            final(self).live_count() == old(self).live_count() - 1,
            !final(self).lives(allocation),
            forall|o: Allocation|
                o.id() != allocation.id() ==> final(self).lives(o) == old(self).lives(o),
    {
        let ghost gk = choose|k: int|
            0 <= k < self.live@.len() && self.live@[k].id == allocation.id
                && self.live@[k].size_in_bytes == allocation.size_in_bytes;
        let mut i: usize = 0;
        while i < self.live.len() && self.live[i].id != allocation.id
            invariant
                i <= self.live@.len(),
                *self == *old(self),
                forall|j: int| 0 <= j < i ==> (#[trigger] self.live@[j].id) != allocation.id,
                0 <= gk < self.live@.len(),
                self.live@[gk].id == allocation.id,
                self.live@[gk].size_in_bytes == allocation.size_in_bytes,
            decreases self.live@.len() - i,
        {
            i = i + 1;
        }
        assert(i as int == gk);
        proof {
            lemma_sum_at_least(self.live@, gk);
            lemma_sum_nonneg(self.live@);
            lemma_sum_swap_remove(self.live@, gk);
        }
        let ghost pre = self.live@;
        let entry = self.live.swap_remove(i);
        self.used = self.used - entry.size_in_bytes;
        proof {
            assert forall|a: int, b: int|
                0 <= a < b < self.live@.len() implies self.live@[a].id != self.live@[b].id by {
                assert(pre.len() > 0);
            }
            assert(!self.lives(allocation)) by {
                if self.lives(allocation) {
                    let k = choose|k: int|
                        0 <= k < self.live@.len() && self.live@[k].id == allocation.id
                            && self.live@[k].size_in_bytes == allocation.size_in_bytes;
                    if k == gk {
                        assert(self.live@[k] == pre.last());
                        assert(gk < pre.len() - 1 ==> pre[pre.len() - 1].id != allocation.id);
                    }
                }
            }
            assert forall|o: Allocation| o.id() != allocation.id() implies self.lives(o) == old(
                self,
            ).lives(o) by {
                if old(self).lives(o) {
                    let k = choose|k: int|
                        0 <= k < pre.len() && pre[k].id == o.id && pre[k].size_in_bytes
                            == o.size_in_bytes;
                    if k == pre.len() - 1 {
                        assert(gk < pre.len() - 1 ==> self.live@[gk] == pre[k]);
                    } else if k == gk {
                        assert(false);
                    } else {
                        assert(self.live@[k] == pre[k]);
                    }
                }
                if self.lives(o) {
                    let k = choose|k: int|
                        0 <= k < self.live@.len() && self.live@[k].id == o.id
                            && self.live@[k].size_in_bytes == o.size_in_bytes;
                    if k == gk {
                        assert(self.live@[k] == pre[pre.len() - 1]);
                    } else {
                        assert(self.live@[k] == pre[k]);
                    }
                }
            }
        }
    }

    /// Creates a buffer resource and binds fresh memory to it in one step.
    /// If the memory request fails after the resource was created, the
    /// resource is destroyed again before the error propagates: a failed call
    /// leaves no live resource and no live allocation behind.
    #[verifier::rlimit(30)]
    pub fn allocate_buffer(
        &mut self,
        size_in_bytes: u64,
        usage: BufferUsage,
        location: MemoryLocation,
        linear: bool,
    ) -> (r: Result<(BufferHandle, Allocation), AllocationError>)
        requires
            old(self).wf(),
            old(self).can_issue_allocation(),
            old(self).can_issue_buffer(),
        ensures
            final(self).wf(),
            final(self).budget() == old(self).budget(),
            final(self).images_issued() == old(self).images_issued(),
            forall|m: ImageHandle| final(self).image_live(m) == old(self).image_live(m),
            final(self).buffers_issued() == old(self).buffers_issued() + 1,
            r is Ok <==> size_in_bytes > 0 && old(self).used() + size_in_bytes <= old(
                self,
            ).budget(),
            match r {
                Ok((b, a)) => {
                    &&& b.id() == old(self).buffers_issued()
                    &&& !old(self).buffer_live(b)
                    &&& final(self).buffer_live(b)
                    &&& forall|ob: BufferHandle|
                        ob.id() != b.id() ==> final(self).buffer_live(ob) == old(
                            self,
                        ).buffer_live(ob)
                    &&& a.size() == size_in_bytes
                    &&& a.location() == location
                    &&& a.is_linear() == linear
                    &&& a.id() == old(self).allocations_issued()
                    &&& !old(self).lives(a)
                    &&& final(self).lives(a)
                    &&& final(self).used() == old(self).used() + size_in_bytes
                    &&& final(self).live_count() == old(self).live_count() + 1
                    &&& final(self).allocations_issued() == old(self).allocations_issued() + 1
                    &&& forall|o: Allocation|
                        o.id() != a.id() ==> final(self).lives(o) == old(self).lives(o)
                },
                Err(e) => {
                    &&& final(self).used() == old(self).used()
                    &&& final(self).live_count() == old(self).live_count()
                    &&& final(self).allocations_issued() == old(self).allocations_issued()
                    &&& forall|o: Allocation| final(self).lives(o) == old(self).lives(o)
                    &&& forall|ob: BufferHandle|
                        final(self).buffer_live(ob) == old(self).buffer_live(ob)
                    &&& (e == AllocationError::InvalidRequirements <==> size_in_bytes == 0)
                    &&& (e == AllocationError::OutOfMemory <==> size_in_bytes > 0 && old(
                        self,
                    ).used() + size_in_bytes > old(self).budget())
                },
            },
    {
        let id = self.next_buffer_id;
        self.next_buffer_id = id + 1;
        self.live_buffers.push(id);
        let handle = BufferHandle { id };
        proof {
            let s0 = old(self).live_buffers@;
            let s1 = self.live_buffers@;
            assert(self.buffer_live(handle)) by {
                assert(s1[s0.len() as int] == id);
            }
            assert(!old(self).buffer_live(handle)) by {
                if s0.contains(id) {
                    let k = choose|k: int| 0 <= k < s0.len() && s0[k] == id;
                    assert(s0[k] < id);
                }
            }
            assert forall|ob: BufferHandle| ob.id() != handle.id() implies self.buffer_live(ob)
                == old(self).buffer_live(ob) by {
                if s0.contains(ob.id) {
                    let k = choose|k: int| 0 <= k < s0.len() && s0[k] == ob.id;
                    assert(s1[k] == ob.id);
                }
                if s1.contains(ob.id) {
                    let k = choose|k: int| 0 <= k < s1.len() && s1[k] == ob.id;
                    if k < s0.len() {
                        assert(s0[k] == ob.id);
                    }
                }
            }
        }
        match self.allocate(size_in_bytes, location, linear) {
            Ok(a) => Ok((handle, a)),
            Err(e) => {
                // Unwind: the resource was created but its memory was not,
                // so destroy the resource before reporting the failure.
                let ghost blen = self.live_buffers@.len();
                let _ = self.live_buffers.pop();
                proof {
                    assert forall|ob: BufferHandle|
                        self.buffer_live(ob) == old(self).buffer_live(ob) by {
                        assert(self.live_buffers@ =~= old(self).live_buffers@);
                    }
                }
                Err(e)
            },
        }
    }

    /// Creates an image resource and binds fresh memory to it in one step,
    /// with the same unwind guarantee as [`Self::allocate_buffer`].
    #[verifier::rlimit(30)]
    pub fn allocate_image(
        &mut self,
        size_in_bytes: u64,
        location: MemoryLocation,
        linear: bool,
    ) -> (r: Result<(ImageHandle, Allocation), AllocationError>)
        requires
            old(self).wf(),
            old(self).can_issue_allocation(),
            old(self).can_issue_image(),
        ensures
            final(self).wf(),
            final(self).budget() == old(self).budget(),
            final(self).buffers_issued() == old(self).buffers_issued(),
            forall|b: BufferHandle| final(self).buffer_live(b) == old(self).buffer_live(b),
            final(self).images_issued() == old(self).images_issued() + 1,
            r is Ok <==> size_in_bytes > 0 && old(self).used() + size_in_bytes <= old(
                self,
            ).budget(),
            match r {
                Ok((m, a)) => {
                    &&& m.id() == old(self).images_issued()
                    &&& !old(self).image_live(m)
                    &&& final(self).image_live(m)
                    &&& forall|om: ImageHandle|
                        om.id() != m.id() ==> final(self).image_live(om) == old(self).image_live(
                            om,
                        )
                    &&& a.size() == size_in_bytes
                    &&& a.location() == location
                    &&& a.is_linear() == linear
                    &&& a.id() == old(self).allocations_issued()
                    &&& !old(self).lives(a)
                    &&& final(self).lives(a)
                    &&& final(self).used() == old(self).used() + size_in_bytes
                    &&& final(self).live_count() == old(self).live_count() + 1
                    &&& final(self).allocations_issued() == old(self).allocations_issued() + 1
                    &&& forall|o: Allocation|
                        o.id() != a.id() ==> final(self).lives(o) == old(self).lives(o)
                },
                Err(e) => {
                    &&& final(self).used() == old(self).used()
                    &&& final(self).live_count() == old(self).live_count()
                    &&& final(self).allocations_issued() == old(self).allocations_issued()
                    &&& forall|o: Allocation| final(self).lives(o) == old(self).lives(o)
                    &&& forall|om: ImageHandle|
                        final(self).image_live(om) == old(self).image_live(om)
                    &&& (e == AllocationError::InvalidRequirements <==> size_in_bytes == 0)
                    &&& (e == AllocationError::OutOfMemory <==> size_in_bytes > 0 && old(
                        self,
                    ).used() + size_in_bytes > old(self).budget())
                },
            },
    {
        let id = self.next_image_id;
        self.next_image_id = id + 1;
        self.live_images.push(id);
        let handle = ImageHandle { id };
        let ghost mid = *self;
        proof {
            let s0 = old(self).live_images@;
            let s1 = self.live_images@;
            assert(mid.image_live(handle)) by {
                assert(s1[s0.len() as int] == id);
            }
            assert(!old(self).image_live(handle)) by {
                if s0.contains(id) {
                    let k = choose|k: int| 0 <= k < s0.len() && s0[k] == id;
                    assert(s0[k] < id);
                }
            }
            assert forall|om: ImageHandle| om.id() != handle.id() implies mid.image_live(om)
                == old(self).image_live(om) by {
                if s0.contains(om.id) {
                    let k = choose|k: int| 0 <= k < s0.len() && s0[k] == om.id;
                    assert(s1[k] == om.id);
                }
                if s1.contains(om.id) {
                    let k = choose|k: int| 0 <= k < s1.len() && s1[k] == om.id;
                    if k < s0.len() {
                        assert(s0[k] == om.id);
                    }
                }
            }
        }
        match self.allocate(size_in_bytes, location, linear) {
            Ok(a) => {
                proof {
                    assert(self.image_live(handle) == mid.image_live(handle));
                    assert forall|om: ImageHandle| om.id() != handle.id() implies self.image_live(
                        om,
                    ) == old(self).image_live(om) by {
                        assert(self.image_live(om) == mid.image_live(om));
                        assert(mid.image_live(om) == old(self).image_live(om));
                    }
                }
                Ok((handle, a))
            },
            Err(e) => {
                let _ = self.live_images.pop();
                proof {
                    assert forall|om: ImageHandle|
                        self.image_live(om) == old(self).image_live(om) by {
                        assert(self.live_images@ =~= old(self).live_images@);
                    }
                }
                Err(e)
            },
        }
    }

    /// Destroys a live buffer resource.
    pub fn destroy_buffer(&mut self, buffer: BufferHandle)
        requires
            old(self).wf(),
            old(self).buffer_live(buffer),
        ensures
            final(self).wf(),
            final(self).budget() == old(self).budget(),
            final(self).used() == old(self).used(),
            final(self).live_count() == old(self).live_count(),
            final(self).allocations_issued() == old(self).allocations_issued(),
            final(self).buffers_issued() == old(self).buffers_issued(),
            final(self).images_issued() == old(self).images_issued(),
            forall|o: Allocation| final(self).lives(o) == old(self).lives(o),
            forall|m: ImageHandle| final(self).image_live(m) == old(self).image_live(m),
            !final(self).buffer_live(buffer),
            forall|ob: BufferHandle|
                ob.id() != buffer.id() ==> final(self).buffer_live(ob) == old(self).buffer_live(
                    ob,
                ),
    {
        let ghost gk = choose|k: int|
            0 <= k < self.live_buffers@.len() && self.live_buffers@[k] == buffer.id;
        let mut i: usize = 0;
        while i < self.live_buffers.len() && self.live_buffers[i] != buffer.id
            invariant
                i <= self.live_buffers@.len(),
                *self == *old(self),
                forall|j: int| 0 <= j < i ==> (#[trigger] self.live_buffers@[j]) != buffer.id,
                0 <= gk < self.live_buffers@.len(),
                self.live_buffers@[gk] == buffer.id,
            decreases self.live_buffers@.len() - i,
        {
            i = i + 1;
        }
        assert(i as int == gk);
        let ghost pre = self.live_buffers@;
        let removed = self.live_buffers.swap_remove(i);
        proof {
            assert forall|a: int, b: int|
                0 <= a < b < self.live_buffers@.len() implies self.live_buffers@[a]
                != self.live_buffers@[b] by {
                assert(pre.len() > 0);
            }
            assert(!self.buffer_live(buffer)) by {
                if self.live_buffers@.contains(buffer.id) {
                    let k = choose|k: int|
                        0 <= k < self.live_buffers@.len() && self.live_buffers@[k] == buffer.id;
                    if k == gk {
                        assert(gk < pre.len() - 1 ==> pre[pre.len() - 1] != buffer.id);
                    }
                }
            }
            assert forall|ob: BufferHandle| ob.id() != buffer.id() implies self.buffer_live(ob)
                == old(self).buffer_live(ob) by {
                if pre.contains(ob.id) {
                    let k = choose|k: int| 0 <= k < pre.len() && pre[k] == ob.id;
                    if k == pre.len() - 1 {
                        assert(gk < pre.len() - 1 ==> self.live_buffers@[gk] == pre[k]);
                    } else {
                        assert(self.live_buffers@[k] == pre[k]);
                    }
                }
                if self.live_buffers@.contains(ob.id) {
                    let k = choose|k: int|
                        0 <= k < self.live_buffers@.len() && self.live_buffers@[k] == ob.id;
                    if k == gk {
                        assert(self.live_buffers@[k] == pre[pre.len() - 1]);
                    } else {
                        assert(self.live_buffers@[k] == pre[k]);
                    }
                }
            }
        }
    }

    /// Destroys a live image resource.
    pub fn destroy_image(&mut self, image: ImageHandle)
        requires
            old(self).wf(),
            old(self).image_live(image),
        ensures
            final(self).wf(),
            final(self).budget() == old(self).budget(),
            final(self).used() == old(self).used(),
            final(self).live_count() == old(self).live_count(),
            final(self).allocations_issued() == old(self).allocations_issued(),
            final(self).buffers_issued() == old(self).buffers_issued(),
            final(self).images_issued() == old(self).images_issued(),
            forall|o: Allocation| final(self).lives(o) == old(self).lives(o),
            forall|b: BufferHandle| final(self).buffer_live(b) == old(self).buffer_live(b),
            !final(self).image_live(image),
            forall|om: ImageHandle|
                om.id() != image.id() ==> final(self).image_live(om) == old(self).image_live(om),
    {
        let ghost gk = choose|k: int|
            0 <= k < self.live_images@.len() && self.live_images@[k] == image.id;
        let mut i: usize = 0;
        while i < self.live_images.len() && self.live_images[i] != image.id
            invariant
                i <= self.live_images@.len(),
                *self == *old(self),
                forall|j: int| 0 <= j < i ==> (#[trigger] self.live_images@[j]) != image.id,
                0 <= gk < self.live_images@.len(),
                self.live_images@[gk] == image.id,
            decreases self.live_images@.len() - i,
        {
            i = i + 1;
        }
        assert(i as int == gk);
        let ghost pre = self.live_images@;
        let removed = self.live_images.swap_remove(i);
        proof {
            assert forall|a: int, b: int|
                0 <= a < b < self.live_images@.len() implies self.live_images@[a]
                != self.live_images@[b] by {
                assert(pre.len() > 0);
            }
            assert(!self.image_live(image)) by {
                if self.live_images@.contains(image.id) {
                    let k = choose|k: int|
                        0 <= k < self.live_images@.len() && self.live_images@[k] == image.id;
                    if k == gk {
                        assert(gk < pre.len() - 1 ==> pre[pre.len() - 1] != image.id);
                    }
                }
            }
            assert forall|om: ImageHandle| om.id() != image.id() implies self.image_live(om)
                == old(self).image_live(om) by {
                if pre.contains(om.id) {
                    let k = choose|k: int| 0 <= k < pre.len() && pre[k] == om.id;
                    if k == pre.len() - 1 {
                        assert(gk < pre.len() - 1 ==> self.live_images@[gk] == pre[k]);
                    } else {
                        assert(self.live_images@[k] == pre[k]);
                    }
                }
                if self.live_images@.contains(om.id) {
                    let k = choose|k: int|
                        0 <= k < self.live_images@.len() && self.live_images@[k] == om.id;
                    if k == gk {
                        assert(self.live_images@[k] == pre[pre.len() - 1]);
                    } else {
                        assert(self.live_images@[k] == pre[k]);
                    }
                }
            }
        }
    }

    /// The bytes currently covered by live allocations.
    pub fn used_bytes(&self) -> (u: u64)
        ensures
            u as int == self.used(),
    {
        self.used
    }

    /// The device-memory budget in bytes.
    pub fn budget_bytes(&self) -> (b: u64)
        ensures
            b as int == self.budget(),
    {
        self.budget
    }

    /// How many allocations are currently live.
    pub fn live_allocations(&self) -> (n: usize)
        ensures
            n == self.live_count(),
    {
        self.live.len()
    }

    /// How many buffer resources are currently live.
    pub fn live_buffer_resources(&self) -> (n: usize)
        ensures
            n == self.buffer_count(),
    {
        self.live_buffers.len()
    }

    /// Tears the allocator down, consuming it, and reports how many
    /// allocations were still live — a leak report; a clean shutdown
    /// returns zero.
    pub fn cleanup(self) -> (leaked: usize)
        ensures
            leaked == self.live_count(),
    {
        self.live.len()
    }
}

} // verus!
