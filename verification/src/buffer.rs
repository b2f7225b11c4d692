//! A growable GPU buffer.
//!
//! `EngineBuffer` wraps one allocator-backed buffer resource.  Writing a
//! payload larger than the current capacity destroys the old resource and
//! allocation and creates a brand-new pair sized exactly to the payload
//! (copy-on-grow); a payload that fits is copied over the front of the
//! mapped region.  Capacity never shrinks: it is the high-water mark of the
//! payloads written so far.

use vstd::prelude::*;

use crate::allocator::{
    Allocation, AllocationError, BufferHandle, BufferUsage, MemoryLocation, VkAllocator,
};
use crate::records::{device_encoding, lemma_device_encoding_prefix, DeviceBytes};

verus! {

/// A growable buffer: a resource handle, its memory, its capacity, and a
/// model of the host-visible mapped region's bytes.
///
/// A buffer of capacity zero owns no device resources; it acquires them on
/// the first write of a non-empty payload.
pub struct EngineBuffer {
    buffer: Option<BufferHandle>,
    allocation: Option<Allocation>,
    size_in_bytes: u64,
    usage: BufferUsage,
    memory_usage: MemoryLocation,
    mapped: Vec<u8>,
}

impl EngineBuffer {
    /// The capacity in bytes: the size of the last reconstruction, never
    /// shrinking.
    pub closed spec fn capacity(&self) -> int {
        self.size_in_bytes as int
    }

    /// The bytes of the mapped region, as the device would read them back.
    pub closed spec fn contents(&self) -> Seq<u8> {
        self.mapped@
    }

    /// The role this buffer was created for.
    pub closed spec fn usage(&self) -> BufferUsage {
        self.usage
    }

    /// The locality class of this buffer's memory.
    pub closed spec fn memory_usage(&self) -> MemoryLocation {
        self.memory_usage
    }

    /// The memory token currently backing this buffer.
    pub closed spec fn spec_allocation(&self) -> Option<Allocation> {
        self.allocation
    }

    /// The resource handle currently backing this buffer.
    pub closed spec fn spec_buffer(&self) -> Option<BufferHandle> {
        self.buffer
    }

    /// Whether the buffer currently owns device memory.
    pub open spec fn has_allocation(&self) -> bool {
        self.spec_allocation() is Some
    }

    /// The id of the backing memory region (meaningful when one exists).
    pub open spec fn allocation_id(&self) -> int {
        match self.spec_allocation() {
            Some(a) => a.id(),
            None => -1,
        }
    }

    /// The id of the backing resource (meaningful when one exists).
    pub open spec fn buffer_id(&self) -> int {
        match self.spec_buffer() {
            Some(b) => b.id(),
            None => -1,
        }
    }

    /// Internal consistency: resources exist exactly when the capacity is
    /// non-zero, the allocation matches the capacity and locality, and the
    /// mapped region covers the whole capacity.
    pub closed spec fn wf(&self) -> bool {
        &&& (self.allocation is Some <==> self.size_in_bytes > 0)
        &&& (self.buffer is Some <==> self.size_in_bytes > 0)
        &&& self.mapped@.len() == self.size_in_bytes
        &&& match self.allocation {
            Some(a) => a.size() == self.size_in_bytes && a.location() == self.memory_usage
                && a.is_linear(),
            None => true,
        }
    }

    /// The buffer's resources are live in `al`.
    pub open spec fn live_in(&self, al: VkAllocator) -> bool {
        &&& match self.spec_allocation() {
            Some(a) => al.lives(a),
            None => true,
        }
        &&& match self.spec_buffer() {
            Some(b) => al.buffer_live(b),
            None => true,
        }
    }

    /// The payload `need` can be written: either it fits the capacity, or,
    /// after the current allocation is released, a region of exactly `need`
    /// bytes still fits the budget.
    pub open spec fn fill_fits(&self, al: VkAllocator, need: int) -> bool {
        need <= self.capacity() || al.used() - self.capacity() + need <= al.budget()
    }

    /// The capacity in bytes.
    pub fn size_in_bytes(&self) -> (s: u64)
        ensures
            s as int == self.capacity(),
    {
        self.size_in_bytes
    }

    /// Reads the mapped region back.
    pub fn mapped_contents(&self) -> (r: &Vec<u8>)
        ensures
            r@ == self.contents(),
    {
        &self.mapped
    }

    /// The resource handle, for recording bind commands.
    pub fn resource(&self) -> (r: Option<BufferHandle>)
        ensures
            r == self.spec_buffer(),
    {
        self.buffer
    }

    /// Creates a buffer of exactly `size_in_bytes` bytes through the
    /// allocator.  A zero-byte request yields a resource-less buffer that
    /// will allocate on first use; a non-zero request succeeds exactly when
    /// it fits the budget.
    pub fn new(
        allocator: &mut VkAllocator,
        size_in_bytes: u64,
        usage: BufferUsage,
        memory_usage: MemoryLocation,
    ) -> (r: Result<EngineBuffer, AllocationError>)
        requires
            old(allocator).wf(),
            old(allocator).can_issue_allocation(),
            old(allocator).can_issue_buffer(),
        ensures
            final(allocator).wf(),
            final(allocator).budget() == old(allocator).budget(),
            final(allocator).images_issued() == old(allocator).images_issued(),
            forall|m: crate::allocator::ImageHandle|
                final(allocator).image_live(m) == old(allocator).image_live(m),
            r is Ok <==> size_in_bytes == 0 || old(allocator).used() + size_in_bytes <= old(
                allocator,
            ).budget(),
            match r {
                Ok(b) => {
                    &&& b.wf()
                    &&& b.live_in(*final(allocator))
                    &&& b.capacity() == size_in_bytes
                    &&& b.contents().len() == size_in_bytes
                    &&& b.usage() == usage
                    &&& b.memory_usage() == memory_usage
                    &&& size_in_bytes == 0 ==> *final(allocator) == *old(allocator)
                            && !b.has_allocation()
                    &&& size_in_bytes > 0 ==> {
                        &&& b.has_allocation()
                        &&& b.allocation_id() == old(allocator).allocations_issued()
                        &&& b.buffer_id() == old(allocator).buffers_issued()
                        &&& final(allocator).used() == old(allocator).used() + size_in_bytes
                        &&& final(allocator).live_count() == old(allocator).live_count() + 1
                        &&& final(allocator).allocations_issued() == old(
                            allocator,
                        ).allocations_issued() + 1
                        &&& final(allocator).buffers_issued() == old(allocator).buffers_issued()
                            + 1
                        &&& forall|o: Allocation|
                            o.id() != b.allocation_id() ==> final(allocator).lives(o) == old(
                                allocator,
                            ).lives(o)
                        &&& forall|ob: BufferHandle|
                            ob.id() != b.buffer_id() ==> final(allocator).buffer_live(ob) == old(
                                allocator,
                            ).buffer_live(ob)
                    }
                },
                Err(e) => {
                    &&& e == AllocationError::OutOfMemory
                    &&& final(allocator).used() == old(allocator).used()
                    &&& final(allocator).live_count() == old(allocator).live_count()
                    &&& final(allocator).allocations_issued() == old(
                        allocator,
                    ).allocations_issued()
                    &&& forall|o: Allocation|
                        final(allocator).lives(o) == old(allocator).lives(o)
                    &&& forall|ob: BufferHandle|
                        final(allocator).buffer_live(ob) == old(allocator).buffer_live(ob)
                },
            },
    {
        if size_in_bytes == 0 {
            return Ok(
                EngineBuffer {
                    buffer: None,
                    allocation: None,
                    size_in_bytes: 0,
                    usage,
                    memory_usage,
                    mapped: Vec::new(),
                },
            );
        }
        match allocator.allocate_buffer(size_in_bytes, usage, memory_usage, true) {
            Ok((buffer, allocation)) => {
                let mut mapped: Vec<u8> = Vec::new();
                let mut i: u64 = 0;
                while i < size_in_bytes
                    invariant
                        i <= size_in_bytes,
                        mapped@.len() == i,
                    decreases size_in_bytes - i,
                {
                    mapped.push(0);
                    i = i + 1;
                }
                Ok(
                    EngineBuffer {
                        buffer: Some(buffer),
                        allocation: Some(allocation),
                        size_in_bytes,
                        usage,
                        memory_usage,
                        mapped,
                    },
                )
            },
            Err(e) => Err(e),
        }
    }

    /// Writes `data` over the front of the buffer, growing first if it does
    /// not fit.
    ///
    /// - If `data` fits the capacity, exactly the first `data.len()` bytes of
    ///   the mapped region are replaced; the tail and the device resources
    ///   are untouched (a zero-length payload is a no-op).  Capacity is the
    ///   running maximum of all payloads written.
    /// - Otherwise the old allocation is released and the old resource
    ///   destroyed *before* a new pair of exactly `data.len()` bytes is
    ///   created, so at no point does the buffer hold two regions.  On
    ///   success the mapped region equals `data`.
    /// - If the grown region does not fit the budget, the error is reported
    ///   with the old resources already released: the buffer is left in the
    ///   empty (capacity-zero) state and nothing leaks.
    pub fn fill_bytes(&mut self, allocator: &mut VkAllocator, data: &[u8]) -> (r: Result<
        (),
        AllocationError,
    >)
        requires
            old(self).wf(),
            old(self).live_in(*old(allocator)),
            old(allocator).wf(),
            old(allocator).can_issue_allocation(),
            old(allocator).can_issue_buffer(),
            old(self).memory_usage() == MemoryLocation::CpuToGpu,
        ensures
            final(self).wf(),
            final(allocator).wf(),
            final(self).live_in(*final(allocator)),
            final(self).usage() == old(self).usage(),
            final(self).memory_usage() == old(self).memory_usage(),
            final(allocator).budget() == old(allocator).budget(),
            final(allocator).images_issued() == old(allocator).images_issued(),
            forall|m: crate::allocator::ImageHandle|
                final(allocator).image_live(m) == old(allocator).image_live(m),
            r is Ok <==> old(self).fill_fits(*old(allocator), data@.len() as int),
            final(self).capacity() >= old(self).capacity() || r is Err,
            data@.len() <= old(self).capacity() ==> {
                &&& r is Ok
                &&& final(self).capacity() == old(self).capacity()
                &&& final(self).contents() == data@ + old(self).contents().skip(
                    data@.len() as int,
                )
                &&& final(self).spec_allocation() == old(self).spec_allocation()
                &&& final(self).spec_buffer() == old(self).spec_buffer()
                &&& *final(allocator) == *old(allocator)
            },
            data@.len() > old(self).capacity() && r is Ok ==> {
                &&& final(self).capacity() == data@.len()
                &&& final(self).contents() == data@
                &&& final(self).has_allocation()
                &&& final(self).allocation_id() == old(allocator).allocations_issued()
                &&& final(self).buffer_id() == old(allocator).buffers_issued()
                &&& final(allocator).used() == old(allocator).used() - old(self).capacity()
                    + data@.len()
                &&& final(allocator).live_count() == old(allocator).live_count() - (
                if old(self).has_allocation() {
                    1int
                } else {
                    0int
                }) + 1
                &&& final(allocator).allocations_issued() == old(allocator).allocations_issued()
                    + 1
                &&& final(allocator).buffers_issued() == old(allocator).buffers_issued() + 1
                &&& (match old(self).spec_allocation() {
                    Some(a) => !final(allocator).lives(a),
                    None => true,
                })
                &&& (match old(self).spec_buffer() {
                    Some(b) => !final(allocator).buffer_live(b),
                    None => true,
                })
                &&& forall|o: Allocation|
                    o.id() != old(self).allocation_id() && o.id() != old(
                        allocator,
                    ).allocations_issued() ==> final(allocator).lives(o) == old(allocator).lives(
                        o,
                    )
                &&& forall|ob: BufferHandle|
                    ob.id() != old(self).buffer_id() && ob.id() != old(
                        allocator,
                    ).buffers_issued() ==> final(allocator).buffer_live(ob) == old(
                        allocator,
                    ).buffer_live(ob)
            },
            r is Err ==> {
                &&& r == Err::<(), AllocationError>(AllocationError::OutOfMemory)
                &&& final(self).capacity() == 0
                &&& !final(self).has_allocation()
                &&& final(self).spec_buffer() is None
                &&& final(self).contents() == Seq::<u8>::empty()
                &&& final(allocator).used() == old(allocator).used() - old(self).capacity()
                &&& final(allocator).live_count() == old(allocator).live_count() - (
                if old(self).has_allocation() {
                    1int
                } else {
                    0int
                })
                &&& final(allocator).allocations_issued() == old(allocator).allocations_issued()
                &&& (match old(self).spec_allocation() {
                    Some(a) => !final(allocator).lives(a),
                    None => true,
                })
                &&& (match old(self).spec_buffer() {
                    Some(b) => !final(allocator).buffer_live(b),
                    None => true,
                })
                &&& forall|o: Allocation|
                    o.id() != old(self).allocation_id() ==> final(allocator).lives(o) == old(
                        allocator,
                    ).lives(o)
                &&& forall|ob: BufferHandle|
                    ob.id() != old(self).buffer_id() ==> final(allocator).buffer_live(ob) == old(
                        allocator,
                    ).buffer_live(ob)
            },
    {
        let need: usize = data.len();
        if need as u64 > self.size_in_bytes {
            proof {
                match old(self).spec_allocation() {
                    Some(a) => old(allocator).lemma_live_id_bound(a),
                    None => (),
                }
                match old(self).spec_buffer() {
                    Some(b) => old(allocator).lemma_buffer_id_bound(b),
                    None => (),
                }
            }
            // Copy-on-grow: release the old region and resource first, then
            // construct the replacement sized exactly to the payload.
            match self.allocation.take() {
                Some(a) => allocator.free(a),
                None => (),
            }
            match self.buffer.take() {
                Some(b) => allocator.destroy_buffer(b),
                None => (),
            }
            self.size_in_bytes = 0;
            self.mapped = Vec::new();
            match allocator.allocate_buffer(need as u64, self.usage, self.memory_usage, true) {
                Ok((buffer, allocation)) => {
                    self.buffer = Some(buffer);
                    self.allocation = Some(allocation);
                    self.size_in_bytes = need as u64;
                    let mut mapped: Vec<u8> = Vec::new();
                    let mut i: usize = 0;
                    while i < data.len()
                        invariant
                            i <= data@.len(),
                            mapped@ == data@.subrange(0, i as int),
                        decreases data@.len() - i,
                    {
                        mapped.push(data[i]);
                        proof {
                            assert(mapped@ =~= data@.subrange(0, i + 1));
                        }
                        i = i + 1;
                    }
                    proof {
                        assert(mapped@ =~= data@);
                    }
                    self.mapped = mapped;
                    Ok(())
                },
                Err(e) => Err(e),
            }
        } else {
            // The payload fits: overwrite the front of the mapped region.
            let ghost pre = self.mapped@;
            let mut i: usize = 0;
            while i < data.len()
                invariant
                    i <= data@.len(),
                    data@.len() <= self.mapped@.len(),
                    self.buffer == old(self).buffer,
                    self.allocation == old(self).allocation,
                    self.size_in_bytes == old(self).size_in_bytes,
                    self.usage == old(self).usage,
                    self.memory_usage == old(self).memory_usage,
                    pre == old(self).mapped@,
                    self.mapped@.len() == pre.len(),
                    forall|j: int| 0 <= j < i ==> self.mapped@[j] == data@[j],
                    forall|j: int| i <= j < pre.len() ==> self.mapped@[j] == pre[j],
                decreases data@.len() - i,
            {
                let b = data[i];
                self.mapped.set(i, b);
                i = i + 1;
            }
            proof {
                assert(self.mapped@ =~= data@ + pre.skip(data@.len() as int));
            }
            Ok(())
        }
    }

    /// Writes a slice of records, encoded as their device bytes, growing as
    /// [`Self::fill_bytes`] does.
    pub fn fill<T: DeviceBytes>(&mut self, allocator: &mut VkAllocator, data: &[T]) -> (r: Result<
        (),
        AllocationError,
    >)
        requires
            old(self).wf(),
            old(self).live_in(*old(allocator)),
            old(allocator).wf(),
            old(allocator).can_issue_allocation(),
            old(allocator).can_issue_buffer(),
            old(self).memory_usage() == MemoryLocation::CpuToGpu,
        ensures
            final(self).wf(),
            final(allocator).wf(),
            final(self).live_in(*final(allocator)),
            final(self).usage() == old(self).usage(),
            final(self).memory_usage() == old(self).memory_usage(),
            final(allocator).budget() == old(allocator).budget(),
            final(allocator).images_issued() == old(allocator).images_issued(),
            forall|m: crate::allocator::ImageHandle|
                final(allocator).image_live(m) == old(allocator).image_live(m),
            r is Ok <==> old(self).fill_fits(
                *old(allocator),
                device_encoding(data@).len() as int,
            ),
            r is Ok ==> final(self).capacity() >= old(self).capacity(),
            r is Ok ==> final(self).capacity() == vstd::math::max(
                old(self).capacity(),
                device_encoding(data@).len() as int,
            ),
            r is Ok ==> final(self).contents().subrange(
                0,
                device_encoding(data@).len() as int,
            ) == device_encoding(data@),
            device_encoding(data@).len() <= old(self).capacity() ==> {
                &&& r is Ok
                &&& final(self).spec_allocation() == old(self).spec_allocation()
                &&& final(self).spec_buffer() == old(self).spec_buffer()
                &&& final(self).contents() == device_encoding(data@) + old(
                    self,
                ).contents().skip(device_encoding(data@).len() as int)
                &&& *final(allocator) == *old(allocator)
            },
            device_encoding(data@).len() > old(self).capacity() && r is Ok ==> {
                &&& final(self).contents() == device_encoding(data@)
                &&& final(self).has_allocation()
                &&& final(self).allocation_id() == old(allocator).allocations_issued()
                &&& final(self).buffer_id() == old(allocator).buffers_issued()
                &&& final(allocator).used() == old(allocator).used() - old(self).capacity()
                    + device_encoding(data@).len()
                &&& final(allocator).live_count() == old(allocator).live_count() - (
                if old(self).has_allocation() {
                    1int
                } else {
                    0int
                }) + 1
                &&& final(allocator).allocations_issued() == old(allocator).allocations_issued()
                    + 1
                &&& final(allocator).buffers_issued() == old(allocator).buffers_issued() + 1
                &&& (match old(self).spec_allocation() {
                    Some(a) => !final(allocator).lives(a),
                    None => true,
                })
                &&& (match old(self).spec_buffer() {
                    Some(b) => !final(allocator).buffer_live(b),
                    None => true,
                })
                &&& forall|o: Allocation|
                    o.id() != old(self).allocation_id() && o.id() != old(
                        allocator,
                    ).allocations_issued() ==> final(allocator).lives(o) == old(allocator).lives(
                        o,
                    )
                &&& forall|ob: BufferHandle|
                    ob.id() != old(self).buffer_id() && ob.id() != old(
                        allocator,
                    ).buffers_issued() ==> final(allocator).buffer_live(ob) == old(
                        allocator,
                    ).buffer_live(ob)
            },
            r is Err ==> {
                &&& r == Err::<(), AllocationError>(AllocationError::OutOfMemory)
                &&& final(self).capacity() == 0
                &&& !final(self).has_allocation()
                &&& final(self).spec_buffer() is None
                &&& final(allocator).used() == old(allocator).used() - old(self).capacity()
                &&& final(allocator).allocations_issued() == old(allocator).allocations_issued()
                &&& (match old(self).spec_allocation() {
                    Some(a) => !final(allocator).lives(a),
                    None => true,
                })
                &&& (match old(self).spec_buffer() {
                    Some(b) => !final(allocator).buffer_live(b),
                    None => true,
                })
                &&& forall|o: Allocation|
                    o.id() != old(self).allocation_id() ==> final(allocator).lives(o) == old(
                        allocator,
                    ).lives(o)
                &&& forall|ob: BufferHandle|
                    ob.id() != old(self).buffer_id() ==> final(allocator).buffer_live(ob) == old(
                        allocator,
                    ).buffer_live(ob)
            },
    {
        let mut encoded: Vec<u8> = Vec::new();
        let mut i: usize = 0;
        while i < data.len()
            invariant
                i <= data@.len(),
                encoded@ == device_encoding(data@.subrange(0, i as int)),
            decreases data@.len() - i,
        {
            data[i].append_device_bytes(&mut encoded);
            proof {
                lemma_device_encoding_prefix(data@, i as int);
            }
            i = i + 1;
        }
        proof {
            assert(data@.subrange(0, data@.len() as int) =~= data@);
        }
        self.fill_bytes(allocator, encoded.as_slice())
    }

    /// Writes a slice of records into an optional buffer slot, creating the
    /// buffer on first use; the slot afterwards always holds a buffer.
    pub fn sync_slot<T: DeviceBytes>(
        slot: &mut Option<EngineBuffer>,
        allocator: &mut VkAllocator,
        data: &[T],
        usage: BufferUsage,
    ) -> (r: Result<(), AllocationError>)
        requires
            option_wf(*old(slot), usage),
            option_live_in(*old(slot), *old(allocator)),
            old(allocator).wf(),
            old(allocator).can_issue_allocation(),
            old(allocator).can_issue_buffer(),
        ensures
            option_wf(*final(slot), usage),
            option_live_in(*final(slot), *final(allocator)),
            final(allocator).wf(),
            final(allocator).budget() == old(allocator).budget(),
            final(allocator).images_issued() == old(allocator).images_issued(),
            forall|m: crate::allocator::ImageHandle|
                final(allocator).image_live(m) == old(allocator).image_live(m),
            r is Ok <==> option_fits(
                *old(slot),
                *old(allocator),
                device_encoding(data@).len() as int,
            ),
            r is Ok ==> *final(slot) is Some,
            r is Ok ==> option_capacity(*final(slot)) == vstd::math::max(
                option_capacity(*old(slot)),
                device_encoding(data@).len() as int,
            ),
            r is Ok ==> option_contents(*final(slot)).subrange(
                0,
                device_encoding(data@).len() as int,
            ) == device_encoding(data@),
            device_encoding(data@).len() <= option_capacity(*old(slot)) ==> {
                &&& r is Ok
                &&& option_contents(*final(slot)) == device_encoding(data@) + option_contents(
                    *old(slot),
                ).skip(device_encoding(data@).len() as int)
                &&& option_allocation(*final(slot)) == option_allocation(*old(slot))
                &&& option_resource(*final(slot)) == option_resource(*old(slot))
                &&& *final(allocator) == *old(allocator)
            },
            device_encoding(data@).len() > option_capacity(*old(slot)) && r is Ok ==> {
                &&& option_contents(*final(slot)) == device_encoding(data@)
                &&& option_allocation(*final(slot)) is Some
                &&& option_allocation_id(*final(slot)) == old(allocator).allocations_issued()
                &&& option_buffer_id(*final(slot)) == old(allocator).buffers_issued()
                &&& final(allocator).used() == old(allocator).used() - option_capacity(
                    *old(slot),
                ) + device_encoding(data@).len()
                &&& final(allocator).live_count() == old(allocator).live_count() - (
                if option_allocation(*old(slot)) is Some {
                    1int
                } else {
                    0int
                }) + 1
                &&& final(allocator).allocations_issued() == old(allocator).allocations_issued()
                    + 1
                &&& final(allocator).buffers_issued() == old(allocator).buffers_issued() + 1
                &&& (match option_allocation(*old(slot)) {
                    Some(a) => !final(allocator).lives(a),
                    None => true,
                })
                &&& (match option_resource(*old(slot)) {
                    Some(b) => !final(allocator).buffer_live(b),
                    None => true,
                })
                &&& forall|o: Allocation|
                    o.id() != option_allocation_id(*old(slot)) && o.id() != old(
                        allocator,
                    ).allocations_issued() ==> final(allocator).lives(o) == old(allocator).lives(
                        o,
                    )
                &&& forall|ob: BufferHandle|
                    ob.id() != option_buffer_id(*old(slot)) && ob.id() != old(
                        allocator,
                    ).buffers_issued() ==> final(allocator).buffer_live(ob) == old(
                        allocator,
                    ).buffer_live(ob)
            },
            r is Err ==> {
                &&& r == Err::<(), AllocationError>(AllocationError::OutOfMemory)
                &&& option_capacity(*final(slot)) == 0
                &&& option_allocation(*final(slot)) is None
                &&& option_resource(*final(slot)) is None
                &&& final(allocator).used() == old(allocator).used() - option_capacity(
                    *old(slot),
                )
                &&& final(allocator).allocations_issued() == old(allocator).allocations_issued()
                &&& (match option_allocation(*old(slot)) {
                    Some(a) => !final(allocator).lives(a),
                    None => true,
                })
                &&& (match option_resource(*old(slot)) {
                    Some(b) => !final(allocator).buffer_live(b),
                    None => true,
                })
                &&& forall|o: Allocation|
                    o.id() != option_allocation_id(*old(slot)) ==> final(allocator).lives(o)
                        == old(allocator).lives(o)
                &&& forall|ob: BufferHandle|
                    ob.id() != option_buffer_id(*old(slot)) ==> final(allocator).buffer_live(ob)
                        == old(allocator).buffer_live(ob)
            },
    {
        let mut b = match slot.take() {
            Some(existing) => existing,
            None => {
                match EngineBuffer::new(allocator, 0, usage, MemoryLocation::CpuToGpu) {
                    Ok(fresh) => fresh,
                    Err(_) => {
                        proof {
                            assert(false);
                        }
                        return Err(AllocationError::OutOfMemory);
                    },
                }
            },
        };
        let result = b.fill(allocator, data);
        *slot = Some(b);
        result
    }

    /// Releases the buffer's allocation and destroys its resource — both
    /// together, consuming the buffer so neither can happen twice.  The
    /// caller must have waited for any device work still reading the buffer.
    pub fn cleanup(self, allocator: &mut VkAllocator)
        requires
            self.wf(),
            self.live_in(*old(allocator)),
            old(allocator).wf(),
        ensures
            final(allocator).wf(),
            final(allocator).budget() == old(allocator).budget(),
            final(allocator).used() == old(allocator).used() - self.capacity(),
            final(allocator).live_count() == old(allocator).live_count() - (
            if self.has_allocation() {
                1int
            } else {
                0int
            }),
            final(allocator).allocations_issued() == old(allocator).allocations_issued(),
            final(allocator).buffers_issued() == old(allocator).buffers_issued(),
            final(allocator).images_issued() == old(allocator).images_issued(),
            forall|m: crate::allocator::ImageHandle|
                final(allocator).image_live(m) == old(allocator).image_live(m),
            match self.spec_allocation() {
                Some(a) => !final(allocator).lives(a),
                None => true,
            },
            match self.spec_buffer() {
                Some(b) => !final(allocator).buffer_live(b),
                None => true,
            },
            forall|o: Allocation|
                o.id() != self.allocation_id() ==> final(allocator).lives(o) == old(
                    allocator,
                ).lives(o),
            forall|ob: BufferHandle|
                ob.id() != self.buffer_id() ==> final(allocator).buffer_live(ob) == old(
                    allocator,
                ).buffer_live(ob),
    {
        let EngineBuffer { buffer, allocation, .. } = self;
        match allocation {
            Some(a) => allocator.free(a),
            None => (),
        }
        match buffer {
            Some(b) => allocator.destroy_buffer(b),
            None => (),
        }
    }
}

/// The capacity of an optional buffer slot; an empty slot holds nothing.
pub open spec fn option_capacity(b: Option<EngineBuffer>) -> int {
    match b {
        Some(x) => x.capacity(),
        None => 0,
    }
}

/// The mapped bytes of an optional buffer slot.
pub open spec fn option_contents(b: Option<EngineBuffer>) -> Seq<u8> {
    match b {
        Some(x) => x.contents(),
        None => Seq::empty(),
    }
}

/// The memory token behind an optional buffer slot.
pub open spec fn option_allocation(b: Option<EngineBuffer>) -> Option<Allocation> {
    match b {
        Some(x) => x.spec_allocation(),
        None => None,
    }
}

/// The resource handle behind an optional buffer slot.
pub open spec fn option_resource(b: Option<EngineBuffer>) -> Option<BufferHandle> {
    match b {
        Some(x) => x.spec_buffer(),
        None => None,
    }
}

/// The allocation id behind an optional buffer slot (meaningful when one
/// exists).
pub open spec fn option_allocation_id(b: Option<EngineBuffer>) -> int {
    match b {
        Some(x) => x.allocation_id(),
        None => -1,
    }
}

/// The resource id behind an optional buffer slot (meaningful when one
/// exists).
pub open spec fn option_buffer_id(b: Option<EngineBuffer>) -> int {
    match b {
        Some(x) => x.buffer_id(),
        None => -1,
    }
}

/// A slot is well-formed for its role: if it holds a buffer, that buffer is
/// internally consistent, serves `usage`, and is host-visible so it can be
/// written through its mapping.
pub open spec fn option_wf(b: Option<EngineBuffer>, usage: BufferUsage) -> bool {
    match b {
        Some(x) => x.wf() && x.usage() == usage && x.memory_usage() == MemoryLocation::CpuToGpu,
        None => true,
    }
}

/// The slot's resources, if any, are live in `al`.
pub open spec fn option_live_in(b: Option<EngineBuffer>, al: VkAllocator) -> bool {
    match b {
        Some(x) => x.live_in(al),
        None => true,
    }
}

/// A payload of `need` bytes can be written into the slot: it fits the
/// current capacity, or a fresh region of exactly `need` bytes fits the
/// budget once the slot's own region is released.
pub open spec fn option_fits(b: Option<EngineBuffer>, al: VkAllocator, need: int) -> bool {
    need <= option_capacity(b) || al.used() - option_capacity(b) + need <= al.budget()
}

/// Two slots never share a memory region or a resource.
pub open spec fn slot_pair_distinct(a: Option<EngineBuffer>, b: Option<EngineBuffer>) -> bool {
    &&& (option_allocation(a) is Some && option_allocation(b) is Some ==> option_allocation_id(a)
        != option_allocation_id(b))
    &&& (option_resource(a) is Some && option_resource(b) is Some ==> option_buffer_id(a)
        != option_buffer_id(b))
}

} // verus!
