//! The handle-indexed instance store.
//!
//! A `Model` keeps one mesh (vertex and index data) and a dense array of
//! per-instance records.  Each record is addressed by an opaque `usize`
//! handle that stays valid across insertions, removals and reorderings of
//! other handles; handles are issued from a counter and never reused.  The
//! dense array is partitioned into a visible prefix `[0, first_invisible)`
//! and an invisible suffix, so the draw path can submit the visible
//! instances as one contiguous run.  The store owns the growable buffers
//! that mirror its contents into device memory.

use vstd::prelude::*;

use crate::allocator::{Allocation, AllocationError, BufferHandle, BufferUsage, MemoryLocation, VkAllocator};
use crate::buffer::{
    option_allocation, option_allocation_id, option_buffer_id, option_capacity, option_contents,
    option_fits, option_live_in, option_resource, option_wf, slot_pair_distinct, EngineBuffer,
};
use crate::commands::{CommandRecorder, RecordedCommand};
use crate::records::{device_encoding, DeviceBytes};

verus! {

broadcast use vstd::std_specs::vec::group_vec_axioms;

/// The handle passed to a store operation is not (or no longer) one of its
/// live handles.
#[derive(Clone, Copy, Debug, PartialEq, Eq, Structural)]
pub struct InvalidHandle;

/// Relies on `<[T]>::swap` of std: exchanges the elements at indices `a`
/// and `b`; it panics when an index is out of bounds, so that case is
/// excluded here.
#[verifier::external_body]
fn vec_swap<T>(v: &mut Vec<T>, a: usize, b: usize)
    requires
        a < old(v)@.len(),
        b < old(v)@.len(),
    ensures
        final(v)@ == old(v)@.update(a as int, old(v)@[b as int]).update(
            b as int,
            old(v)@[a as int],
        ),
{
    v.as_mut_slice().swap(a, b);
}

/// `s` with the elements at `i` and `j` exchanged.
pub open spec fn seq_swap<A>(s: Seq<A>, i: int, j: int) -> Seq<A> {
    s.update(i, s[j]).update(j, s[i])
}

/// A mesh with a sparse-set store of per-instance records.
///
/// `V` is the vertex record type, `I` the per-instance record type.
pub struct Model<V, I> {
    vertex_data: Vec<V>,
    index_data: Vec<u32>,
    handle_to_index: Vec<Option<usize>>,
    handles: Vec<usize>,
    instances: Vec<I>,
    first_invisible: usize,
    next_handle: usize,
    vertex_buffer: Option<EngineBuffer>,
    index_buffer: Option<EngineBuffer>,
    instance_buffer: Option<EngineBuffer>,
}

impl<V, I> Model<V, I> {
    /// The dense array of handles; `handles()[i]` owns the record at `i`.
    pub closed spec fn handles(&self) -> Seq<usize> {
        self.handles@
    }

    /// The dense array of instance records.
    pub closed spec fn records(&self) -> Seq<I> {
        self.instances@
    }

    /// The vertex data of the mesh.
    pub closed spec fn vertices(&self) -> Seq<V> {
        self.vertex_data@
    }

    /// The index data of the mesh.
    pub closed spec fn indices(&self) -> Seq<u32> {
        self.index_data@
    }

    /// The partition cursor: records at dense indices below it are visible,
    /// records at or above it are invisible.
    pub closed spec fn first_invisible(&self) -> int {
        self.first_invisible as int
    }

    /// The next handle value to be issued; all live handles lie below it,
    /// and no handle below it is ever issued again.
    pub closed spec fn next_handle(&self) -> int {
        self.next_handle as int
    }

    /// How many records the store holds.
    pub open spec fn len(&self) -> int {
        self.records().len() as int
    }

    /// The dense index a handle maps to, `None` for a handle that was never
    /// issued or was removed.
    pub closed spec fn index_of(&self, handle: usize) -> Option<usize> {
        if handle < self.handle_to_index@.len() {
            self.handle_to_index@[handle as int]
        } else {
            None
        }
    }

    /// The handle is live: issued and not yet removed.
    pub open spec fn live(&self, handle: usize) -> bool {
        self.index_of(handle) is Some
    }

    /// The record a live handle addresses.
    pub open spec fn record_of(&self, handle: usize) -> I
        recommends
            self.live(handle),
    {
        match self.index_of(handle) {
            Some(i) => self.records()[i as int],
            None => arbitrary(),
        }
    }

    /// A live handle is visible exactly when its dense index lies in the
    /// visible prefix.
    pub open spec fn spec_is_visible(&self, handle: usize) -> bool {
        match self.index_of(handle) {
            Some(i) => (i as int) < self.first_invisible(),
            None => false,
        }
    }

    /// The vertex buffer slot.
    pub closed spec fn spec_vertex_buffer(&self) -> Option<EngineBuffer> {
        self.vertex_buffer
    }

    /// The index buffer slot.
    pub closed spec fn spec_index_buffer(&self) -> Option<EngineBuffer> {
        self.index_buffer
    }

    /// The instance buffer slot.
    pub closed spec fn spec_instance_buffer(&self) -> Option<EngineBuffer> {
        self.instance_buffer
    }

    /// Internal consistency of the sparse set: the dense arrays run in
    /// parallel, the cursor is in range, every dense entry's handle maps
    /// back to its index, and every mapped handle points at a dense entry
    /// that carries it.
    pub closed spec fn wf(&self) -> bool {
        &&& self.handles@.len() == self.instances@.len()
        &&& self.first_invisible <= self.handles@.len()
        &&& self.next_handle == self.handle_to_index@.len()
        &&& forall|i: int|
            0 <= i < self.handles@.len() ==> (#[trigger] self.handles@[i]) < self.next_handle
        &&& forall|i: int|
            0 <= i < self.handles@.len() ==> #[trigger] self.handle_to_index@[self.handles@[i] as int]
                == Some(i as usize)
        &&& forall|h: int|
            0 <= h < self.handle_to_index@.len() ==> ((#[trigger] self.handle_to_index@[h])
                matches Some(j) ==> j < self.handles@.len() && self.handles@[j as int] == h)
    }

    /// The store's buffer slots are well-formed for their roles and never
    /// share a region or a resource.  (Instance data binds as a second
    /// vertex input, so its buffer serves the vertex role.)
    pub open spec fn buffers_wf(&self) -> bool {
        &&& option_wf(self.spec_vertex_buffer(), BufferUsage::Vertex)
        &&& option_wf(self.spec_index_buffer(), BufferUsage::Index)
        &&& option_wf(self.spec_instance_buffer(), BufferUsage::Vertex)
        &&& slot_pair_distinct(self.spec_vertex_buffer(), self.spec_index_buffer())
        &&& slot_pair_distinct(self.spec_vertex_buffer(), self.spec_instance_buffer())
        &&& slot_pair_distinct(self.spec_index_buffer(), self.spec_instance_buffer())
    }

    /// All three buffer slots are live in `al`.
    pub open spec fn buffers_live_in(&self, al: VkAllocator) -> bool {
        &&& option_live_in(self.spec_vertex_buffer(), al)
        &&& option_live_in(self.spec_index_buffer(), al)
        &&& option_live_in(self.spec_instance_buffer(), al)
    }

    /// Drawing binds all three buffers, so it needs each slot to hold a
    /// buffer with a live resource, and at least one visible instance.
    pub open spec fn draw_ready(&self) -> bool {
        &&& option_resource(self.spec_vertex_buffer()) is Some
        &&& option_resource(self.spec_index_buffer()) is Some
        &&& option_resource(self.spec_instance_buffer()) is Some
        &&& self.first_invisible() > 0
    }

    /// A fresh store for a mesh: no instances, no handles issued, no
    /// buffers created yet.
    pub fn new(vertex_data: Vec<V>, index_data: Vec<u32>) -> (m: Model<V, I>)
        ensures
            m.wf(),
            m.len() == 0,
            m.first_invisible() == 0,
            m.next_handle() == 0,
            m.handles() == Seq::<usize>::empty(),
            m.records() == Seq::<I>::empty(),
            m.vertices() == vertex_data@,
            m.indices() == index_data@,
            m.spec_vertex_buffer() is None,
            m.spec_index_buffer() is None,
            m.spec_instance_buffer() is None,
            forall|h: usize| !m.live(h),
    {
        Model {
            vertex_data,
            index_data,
            handle_to_index: Vec::new(),
            handles: Vec::new(),
            instances: Vec::new(),
            first_invisible: 0,
            next_handle: 0,
            vertex_buffer: None,
            index_buffer: None,
            instance_buffer: None,
        }
    }

    /// Appends a record, assigns it the next handle, and registers the
    /// mapping.  The new instance is invisible; every other handle keeps
    /// its index, record and visibility.
    pub fn insert(&mut self, element: I) -> (handle: usize)
        requires
            old(self).wf(),
            old(self).next_handle() < usize::MAX,
        ensures
            final(self).wf(),
            handle as int == old(self).next_handle(),
            final(self).next_handle() == old(self).next_handle() + 1,
            final(self).handles() == old(self).handles().push(handle),
            final(self).records() == old(self).records().push(element),
            final(self).first_invisible() == old(self).first_invisible(),
            !old(self).live(handle),
            final(self).live(handle),
            final(self).index_of(handle) == Some(old(self).records().len() as usize),
            !final(self).spec_is_visible(handle),
            final(self).record_of(handle) == element,
            forall|h: usize| h != handle ==> final(self).index_of(h) == old(self).index_of(h),
            final(self).vertices() == old(self).vertices(),
            final(self).indices() == old(self).indices(),
            final(self).spec_vertex_buffer() == old(self).spec_vertex_buffer(),
            final(self).spec_index_buffer() == old(self).spec_index_buffer(),
            final(self).spec_instance_buffer() == old(self).spec_instance_buffer(),
    {
        let handle = self.next_handle;
        self.next_handle = handle + 1;
        let index = self.instances.len();
        self.instances.push(element);
        self.handles.push(handle);
        self.handle_to_index.push(Some(index));
        proof {
            let pre = old(self);
            assert forall|i: int| 0 <= i < self.handles@.len() implies #[trigger] self.handle_to_index@[self.handles@[i] as int] == Some(i as usize) by {
                if i < pre.handles@.len() {
                    assert(self.handles@[i] == pre.handles@[i]);
                    assert(pre.handles@[i] < pre.next_handle);
                    assert(self.handle_to_index@[pre.handles@[i] as int]
                        == pre.handle_to_index@[pre.handles@[i] as int]);
                } else {
                    assert(self.handles@[i] == handle);
                }
            }
            assert forall|h: int|
                0 <= h < self.handle_to_index@.len() implies ((#[trigger] self.handle_to_index@[h])
                matches Some(j) ==> j < self.handles@.len() && self.handles@[j as int] == h) by {
                if h < pre.handle_to_index@.len() {
                    assert(self.handle_to_index@[h] == pre.handle_to_index@[h]);
                } else {
                    assert(h == handle as int);
                    assert(self.handle_to_index@[h] == Some(index));
                }
            }
            assert forall|h: usize| h != handle implies final(self).index_of(h) == pre.index_of(
                h,
            ) by {
                if h < pre.handle_to_index@.len() {
                    assert(self.handle_to_index@[h as int] == pre.handle_to_index@[h as int]);
                }
            }
        }
        handle
    }

    /// Looks a handle up; `None` exactly for a dead handle.
    pub fn get(&self, handle: usize) -> (r: Option<&I>)
        requires
            self.wf(),
        ensures
            match r {
                Some(record) => self.live(handle) && *record == self.record_of(handle),
                None => !self.live(handle),
            },
    {
        if handle >= self.handle_to_index.len() {
            return None;
        }
        let entry = self.handle_to_index[handle];
        match entry {
            Some(index) => Some(&self.instances[index]),
            None => None,
        }
    }

    /// Exchanges the dense positions of the entries at `index1` and
    /// `index2`, keeping the handle map consistent.  Each handle keeps its
    /// record; only positions (and so visibility) can change.
    pub fn swap_by_index(&mut self, index1: usize, index2: usize)
        requires
            old(self).wf(),
            index1 < old(self).len(),
            index2 < old(self).len(),
        ensures
            final(self).wf(),
            final(self).handles() == seq_swap(old(self).handles(), index1 as int, index2 as int),
            final(self).records() == seq_swap(old(self).records(), index1 as int, index2 as int),
            final(self).first_invisible() == old(self).first_invisible(),
            final(self).next_handle() == old(self).next_handle(),
            final(self).index_of(old(self).handles()[index1 as int]) == Some(index2),
            final(self).index_of(old(self).handles()[index2 as int]) == Some(index1),
            forall|h: usize|
                h != old(self).handles()[index1 as int] && h != old(self).handles()[index2 as int]
                    ==> final(self).index_of(h) == old(self).index_of(h),
            forall|h: usize| final(self).live(h) == old(self).live(h),
            forall|h: usize|
                old(self).live(h) ==> final(self).record_of(h) == old(self).record_of(h),
            final(self).vertices() == old(self).vertices(),
            final(self).indices() == old(self).indices(),
            final(self).spec_vertex_buffer() == old(self).spec_vertex_buffer(),
            final(self).spec_index_buffer() == old(self).spec_index_buffer(),
            final(self).spec_instance_buffer() == old(self).spec_instance_buffer(),
    {
        let total = self.handles.len();
        proof {
            assert(old(self).handles@.len() == total);
            assert(old(self).handles@.len() == old(self).instances@.len());
        }
        if index1 == index2 {
            proof {
                assert(seq_swap(self.handles@, index1 as int, index2 as int) =~= self.handles@);
                assert(seq_swap(self.instances@, index1 as int, index2 as int) =~= self.instances@);
            }
            return ;
        }
        let h1 = self.handles[index1];
        let h2 = self.handles[index2];
        proof {
            assert(old(self).handle_to_index@[h1 as int] == Some(index1));
            assert(old(self).handle_to_index@[h2 as int] == Some(index2));
            assert(h1 != h2);
        }
        vec_swap(&mut self.handles, index1, index2);
        vec_swap(&mut self.instances, index1, index2);
        self.handle_to_index.set(h2, Some(index1));
        self.handle_to_index.set(h1, Some(index2));
        proof {
            let pre = old(self);
            let i1 = index1 as int;
            let i2 = index2 as int;
            assert forall|i: int|
                0 <= i < self.handles@.len() implies (#[trigger] self.handles@[i])
                < self.next_handle by {
                if i == i1 {
                    assert(self.handles@[i] == pre.handles@[i2]);
                } else if i == i2 {
                    assert(self.handles@[i] == pre.handles@[i1]);
                } else {
                    assert(self.handles@[i] == pre.handles@[i]);
                }
            }
            assert forall|i: int|
                0 <= i < self.handles@.len() implies #[trigger] self.handle_to_index@[self.handles@[i] as int]
                == Some(i as usize) by {
                if i == i1 {
                    assert(self.handles@[i] == h2);
                } else if i == i2 {
                    assert(self.handles@[i] == h1);
                } else {
                    let h = pre.handles@[i];
                    assert(self.handles@[i] == h);
                    assert(pre.handle_to_index@[h as int] == Some(i as usize));
                    assert(h != h1 && h != h2);
                }
            }
            assert forall|h: int|
                0 <= h < self.handle_to_index@.len() implies ((
                #[trigger] self.handle_to_index@[h]) matches Some(j) ==> j < self.handles@.len()
                && self.handles@[j as int] == h) by {
                if h == h1 as int {
                    assert(self.handle_to_index@[h] == Some(index2));
                } else if h == h2 as int {
                    assert(self.handle_to_index@[h] == Some(index1));
                } else {
                    assert(self.handle_to_index@[h] == pre.handle_to_index@[h]);
                    if pre.handle_to_index@[h] is Some {
                        let j = pre.handle_to_index@[h]->0;
                        assert(pre.handles@[j as int] == h);
                        assert(j != index1 && j != index2);
                        assert(self.handles@[j as int] == h);
                    }
                }
            }
            assert forall|h: usize| h != h1 && h != h2 implies final(self).index_of(h)
                == pre.index_of(h) by {
                if h < pre.handle_to_index@.len() {
                    assert(self.handle_to_index@[h as int] == pre.handle_to_index@[h as int]);
                }
            }
            assert forall|h: usize| pre.live(h) implies final(self).record_of(h)
                == pre.record_of(h) by {
                let j = pre.index_of(h)->0;
                assert(pre.handle_to_index@[h as int] == Some(j));
                assert(pre.handles@[j as int] == h);
                if h == h1 {
                    assert(j == index1);
                    assert(self.instances@[i2] == pre.instances@[i1]);
                } else if h == h2 {
                    assert(j == index2);
                    assert(self.instances@[i1] == pre.instances@[i2]);
                } else {
                    assert(self.handle_to_index@[h as int] == pre.handle_to_index@[h as int]);
                    assert(j != index1 && j != index2);
                    assert(self.instances@[j as int] == pre.instances@[j as int]);
                }
            }
            assert forall|h: usize| final(self).live(h) == pre.live(h) by {
                if h != h1 && h != h2 && h < pre.handle_to_index@.len() {
                    assert(self.handle_to_index@[h as int] == pre.handle_to_index@[h as int]);
                }
            }
        }
    }

    /// Moves a live, invisible instance into the visible prefix by swapping
    /// it with the entry at the partition cursor and advancing the cursor.
    /// A handle that is already visible is left alone; every other handle
    /// keeps its record and visibility.
    pub fn make_visible(&mut self, handle: usize) -> (r: Result<(), InvalidHandle>)
        requires
            old(self).wf(),
        ensures
            final(self).wf(),
            r is Ok <==> old(self).live(handle),
            r is Err ==> *final(self) == *old(self) && r == Err::<(), InvalidHandle>(
                InvalidHandle,
            ),
            old(self).spec_is_visible(handle) ==> *final(self) == *old(self),
            r is Ok ==> final(self).spec_is_visible(handle),
            old(self).live(handle) && !old(self).spec_is_visible(handle) ==> {
                &&& final(self).first_invisible() == old(self).first_invisible() + 1
                &&& (old(self).index_of(handle) matches Some(i) && final(self).handles()
                    == seq_swap(
                    old(self).handles(),
                    i as int,
                    old(self).first_invisible(),
                ) && final(self).records() == seq_swap(
                    old(self).records(),
                    i as int,
                    old(self).first_invisible(),
                ))
                &&& final(self).index_of(handle) == Some(
                    old(self).first_invisible() as usize,
                )
            },
            final(self).next_handle() == old(self).next_handle(),
            final(self).len() == old(self).len(),
            final(self).first_invisible() >= old(self).first_invisible(),
            forall|h: usize| final(self).live(h) == old(self).live(h),
            forall|h: usize|
                old(self).live(h) ==> final(self).record_of(h) == old(self).record_of(h),
            forall|h: usize|
                h != handle ==> final(self).spec_is_visible(h) == old(self).spec_is_visible(h),
            final(self).vertices() == old(self).vertices(),
            final(self).indices() == old(self).indices(),
            final(self).spec_vertex_buffer() == old(self).spec_vertex_buffer(),
            final(self).spec_index_buffer() == old(self).spec_index_buffer(),
            final(self).spec_instance_buffer() == old(self).spec_instance_buffer(),
    {
        if handle >= self.handle_to_index.len() {
            return Err(InvalidHandle);
        }
        let entry = self.handle_to_index[handle];
        match entry {
            None => Err(InvalidHandle),
            Some(index) => {
                if index < self.first_invisible {
                    return Ok(());
                }
                let total = self.instances.len();
                proof {
                    assert(old(self).handles@[index as int] == handle);
                    assert(index < total);
                }
                let cursor = self.first_invisible;
                self.swap_by_index(index, cursor);
                self.first_invisible = cursor + 1;
                proof {
                    let pre = old(self);
                    let partner = pre.handles@[cursor as int];
                    assert(final(self).index_of(handle) == Some(cursor));
                    assert forall|h: usize| h != handle implies final(self).spec_is_visible(h)
                        == pre.spec_is_visible(h) by {
                        if pre.live(h) {
                            let j = pre.index_of(h)->0;
                            assert(pre.handle_to_index@[h as int] == Some(j));
                            assert(pre.handles@[j as int] == h);
                            if h == partner {
                                assert(j == cursor);
                                assert(final(self).index_of(h) == Some(index));
                            } else {
                                assert(j != index && j != cursor);
                                assert(final(self).index_of(h) == pre.index_of(h));
                            }
                        }
                    }
                }
                Ok(())
            },
        }
    }

    /// Moves a live, visible instance out of the visible prefix by swapping
    /// it with the last visible entry and retracting the cursor.  A handle
    /// that is already invisible is left alone; every other handle keeps
    /// its record and visibility.
    pub fn make_invisible(&mut self, handle: usize) -> (r: Result<(), InvalidHandle>)
        requires
            old(self).wf(),
        ensures
            final(self).wf(),
            r is Ok <==> old(self).live(handle),
            r is Err ==> *final(self) == *old(self) && r == Err::<(), InvalidHandle>(
                InvalidHandle,
            ),
            old(self).live(handle) && !old(self).spec_is_visible(handle) ==> *final(self) == *old(
                self,
            ),
            r is Ok ==> !final(self).spec_is_visible(handle),
            old(self).spec_is_visible(handle) ==> {
                &&& final(self).first_invisible() == old(self).first_invisible() - 1
                &&& (old(self).index_of(handle) matches Some(i) && final(self).handles()
                    == seq_swap(
                    old(self).handles(),
                    i as int,
                    old(self).first_invisible() - 1,
                ) && final(self).records() == seq_swap(
                    old(self).records(),
                    i as int,
                    old(self).first_invisible() - 1,
                ))
                &&& final(self).index_of(handle) == Some(
                    (old(self).first_invisible() - 1) as usize,
                )
            },
            final(self).next_handle() == old(self).next_handle(),
            final(self).len() == old(self).len(),
            final(self).first_invisible() <= old(self).first_invisible(),
            forall|h: usize| final(self).live(h) == old(self).live(h),
            forall|h: usize|
                old(self).live(h) ==> final(self).record_of(h) == old(self).record_of(h),
            forall|h: usize|
                h != handle ==> final(self).spec_is_visible(h) == old(self).spec_is_visible(h),
            final(self).vertices() == old(self).vertices(),
            final(self).indices() == old(self).indices(),
            final(self).spec_vertex_buffer() == old(self).spec_vertex_buffer(),
            final(self).spec_index_buffer() == old(self).spec_index_buffer(),
            final(self).spec_instance_buffer() == old(self).spec_instance_buffer(),
    {
        if handle >= self.handle_to_index.len() {
            return Err(InvalidHandle);
        }
        let entry = self.handle_to_index[handle];
        match entry {
            None => Err(InvalidHandle),
            Some(index) => {
                if index >= self.first_invisible {
                    return Ok(());
                }
                proof {
                    assert(old(self).handles@[index as int] == handle);
                }
                let last_visible = self.first_invisible - 1;
                self.swap_by_index(index, last_visible);
                self.first_invisible = last_visible;
                proof {
                    let pre = old(self);
                    let partner = pre.handles@[last_visible as int];
                    assert(final(self).index_of(handle) == Some(last_visible));
                    assert forall|h: usize| h != handle implies final(self).spec_is_visible(h)
                        == pre.spec_is_visible(h) by {
                        if pre.live(h) {
                            let j = pre.index_of(h)->0;
                            assert(pre.handle_to_index@[h as int] == Some(j));
                            assert(pre.handles@[j as int] == h);
                            if h == partner {
                                assert(j == last_visible);
                                assert(final(self).index_of(h) == Some(index));
                            } else {
                                assert(j != index && j != last_visible);
                                assert(final(self).index_of(h) == pre.index_of(h));
                            }
                        }
                    }
                }
                Ok(())
            },
        }
    }

    /// Exchanges the dense positions of two live handles; their records
    /// stay with them, their visibilities trade places.  Equal handles are
    /// a no-op; otherwise both must be live.
    pub fn swap_by_handle(&mut self, handle1: usize, handle2: usize) -> (r: Result<
        (),
        InvalidHandle,
    >)
        requires
            old(self).wf(),
        ensures
            final(self).wf(),
            handle1 == handle2 ==> r is Ok && *final(self) == *old(self),
            handle1 != handle2 ==> (r is Ok <==> old(self).live(handle1) && old(self).live(
                handle2,
            )),
            r is Err ==> *final(self) == *old(self) && r == Err::<(), InvalidHandle>(
                InvalidHandle,
            ),
            r is Ok && handle1 != handle2 ==> {
                &&& final(self).index_of(handle1) == old(self).index_of(handle2)
                &&& final(self).index_of(handle2) == old(self).index_of(handle1)
                &&& final(self).spec_is_visible(handle1) == old(self).spec_is_visible(handle2)
                &&& final(self).spec_is_visible(handle2) == old(self).spec_is_visible(handle1)
            },
            forall|h: usize|
                h != handle1 && h != handle2 ==> final(self).index_of(h) == old(self).index_of(h),
            forall|h: usize| final(self).live(h) == old(self).live(h),
            forall|h: usize|
                old(self).live(h) ==> final(self).record_of(h) == old(self).record_of(h),
            final(self).first_invisible() == old(self).first_invisible(),
            final(self).next_handle() == old(self).next_handle(),
            final(self).len() == old(self).len(),
            final(self).vertices() == old(self).vertices(),
            final(self).indices() == old(self).indices(),
            final(self).spec_vertex_buffer() == old(self).spec_vertex_buffer(),
            final(self).spec_index_buffer() == old(self).spec_index_buffer(),
            final(self).spec_instance_buffer() == old(self).spec_instance_buffer(),
    {
        if handle1 == handle2 {
            return Ok(());
        }
        if handle1 >= self.handle_to_index.len() || handle2 >= self.handle_to_index.len() {
            return Err(InvalidHandle);
        }
        let entry1 = self.handle_to_index[handle1];
        let entry2 = self.handle_to_index[handle2];
        match (entry1, entry2) {
            (Some(index1), Some(index2)) => {
                proof {
                    assert(old(self).handles@[index1 as int] == handle1);
                    assert(old(self).handles@[index2 as int] == handle2);
                }
                self.swap_by_index(index1, index2);
                Ok(())
            },
            _ => Err(InvalidHandle),
        }
    }

    /// Appends a record and makes it visible in one step.
    pub fn insert_visibly(&mut self, element: I) -> (handle: usize)
        requires
            old(self).wf(),
            old(self).next_handle() < usize::MAX,
        ensures
            final(self).wf(),
            handle as int == old(self).next_handle(),
            final(self).next_handle() == old(self).next_handle() + 1,
            final(self).len() == old(self).len() + 1,
            !old(self).live(handle),
            final(self).live(handle),
            final(self).record_of(handle) == element,
            final(self).spec_is_visible(handle),
            final(self).first_invisible() == old(self).first_invisible() + 1,
            final(self).index_of(handle) == Some(old(self).first_invisible() as usize),
            forall|h: usize| h != handle ==> final(self).live(h) == old(self).live(h),
            forall|h: usize|
                h != handle && old(self).live(h) ==> final(self).record_of(h) == old(
                    self,
                ).record_of(h) && final(self).spec_is_visible(h) == old(self).spec_is_visible(h),
            final(self).vertices() == old(self).vertices(),
            final(self).indices() == old(self).indices(),
            final(self).spec_vertex_buffer() == old(self).spec_vertex_buffer(),
            final(self).spec_index_buffer() == old(self).spec_index_buffer(),
            final(self).spec_instance_buffer() == old(self).spec_instance_buffer(),
    {
        let handle = self.insert(element);
        let ghost mid = *self;
        proof {
            assert(!mid.spec_is_visible(handle));
            assert forall|h: usize| h != handle && old(self).live(h) implies mid.record_of(h)
                == old(self).record_of(h) && mid.spec_is_visible(h) == old(self).spec_is_visible(
                h,
            ) by {
                let j = old(self).index_of(h)->0;
                assert(mid.index_of(h) == old(self).index_of(h));
                assert(old(self).handle_to_index@[h as int] == Some(j));
                assert(j < old(self).handles@.len());
                assert(mid.records()[j as int] == old(self).records()[j as int]);
            }
        }
        let r = self.make_visible(handle);
        proof {
            assert(r is Ok);
            assert forall|h: usize| h != handle && old(self).live(h) implies self.record_of(h)
                == old(self).record_of(h) && self.spec_is_visible(h) == old(
                self,
            ).spec_is_visible(h) by {
                assert(mid.live(h));
            }
        }
        handle
    }

    /// Removes a live handle and hands its record back.  If the instance
    /// was visible it is first swapped out of the visible prefix; then it
    /// is swapped to the very end of the dense arrays and popped, so every
    /// other handle keeps its record and its visibility.  The removed
    /// handle is dead afterwards and its value is never issued again.
    pub fn remove(&mut self, handle: usize) -> (r: Result<I, InvalidHandle>)
        requires
            old(self).wf(),
        ensures
            final(self).wf(),
            r is Ok <==> old(self).live(handle),
            r is Err ==> *final(self) == *old(self) && r == Err::<I, InvalidHandle>(
                InvalidHandle,
            ),
            (r matches Ok(record) ==> {
                &&& record == old(self).record_of(handle)
                &&& final(self).len() == old(self).len() - 1
                &&& !final(self).live(handle)
                &&& final(self).first_invisible() == old(self).first_invisible() - (
                if old(self).spec_is_visible(handle) {
                    1int
                } else {
                    0int
                })
            }),
            final(self).next_handle() == old(self).next_handle(),
            forall|h: usize| h != handle ==> final(self).live(h) == old(self).live(h),
            forall|h: usize|
                h != handle && old(self).live(h) ==> final(self).record_of(h) == old(
                    self,
                ).record_of(h) && final(self).spec_is_visible(h) == old(self).spec_is_visible(h),
            final(self).vertices() == old(self).vertices(),
            final(self).indices() == old(self).indices(),
            final(self).spec_vertex_buffer() == old(self).spec_vertex_buffer(),
            final(self).spec_index_buffer() == old(self).spec_index_buffer(),
            final(self).spec_instance_buffer() == old(self).spec_instance_buffer(),
    {
        if handle >= self.handle_to_index.len() {
            return Err(InvalidHandle);
        }
        let entry = self.handle_to_index[handle];
        match entry {
            None => Err(InvalidHandle),
            Some(index) => {
                let total = self.instances.len();
                proof {
                    assert(old(self).handles@[index as int] == handle);
                    assert(index < total);
                }
                let mut at = index;
                if at < self.first_invisible {
                    let last_visible = self.first_invisible - 1;
                    self.swap_by_index(at, last_visible);
                    self.first_invisible = last_visible;
                    at = last_visible;
                }
                let ghost s1 = *self;
                proof {
                    assert(s1.index_of(handle) == Some(at));
                    assert(s1.handles@[at as int] == handle);
                    assert(s1.first_invisible <= at < total);
                    assert(s1.records()[at as int] == old(self).record_of(handle));
                    assert forall|h: usize| h != handle && old(self).live(h) implies s1.live(h)
                        && s1.record_of(h) == old(self).record_of(h) && s1.spec_is_visible(h)
                        == old(self).spec_is_visible(h) by {
                        let j = old(self).index_of(h)->0;
                        assert(old(self).handle_to_index@[h as int] == Some(j));
                        assert(old(self).handles@[j as int] == h);
                        if old(self).spec_is_visible(handle) {
                            let fi0 = old(self).first_invisible() - 1;
                            if h == old(self).handles()[fi0] {
                                assert(s1.index_of(h) == Some(index));
                            } else {
                                assert(j != index && j != fi0);
                                assert(s1.index_of(h) == old(self).index_of(h));
                            }
                        }
                    }
                }
                let last = self.instances.len() - 1;
                self.swap_by_index(at, last);
                let ghost s2 = *self;
                proof {
                    assert(s2.index_of(handle) == Some(last));
                    assert(s2.handles@[last as int] == handle);
                    assert forall|h: usize| h != handle && s1.live(h) implies s2.live(h)
                        && s2.record_of(h) == s1.record_of(h) && s2.spec_is_visible(h)
                        == s1.spec_is_visible(h) by {
                        let j = s1.index_of(h)->0;
                        assert(s1.handle_to_index@[h as int] == Some(j));
                        assert(s1.handles@[j as int] == h);
                        if h == s1.handles()[last as int] {
                            assert(j == last);
                            assert(s2.index_of(h) == Some(at));
                        } else {
                            assert(j != at && j != last);
                            assert(s2.index_of(h) == s1.index_of(h));
                        }
                    }
                }
                let _ = self.handles.pop();
                let record_opt = self.instances.pop();
                self.handle_to_index.set(handle, None);
                proof {
                    let fin = *self;
                    assert(fin.handles@ =~= s2.handles@.subrange(0, last as int));
                    assert(fin.instances@ =~= s2.instances@.subrange(0, last as int));
                    assert forall|i: int|
                        0 <= i < fin.handles@.len() implies (#[trigger] fin.handles@[i])
                        < fin.next_handle by {
                        assert(fin.handles@[i] == s2.handles@[i]);
                    }
                    assert forall|i: int|
                        0 <= i < fin.handles@.len() implies #[trigger] fin.handle_to_index@[fin.handles@[i] as int]
                        == Some(i as usize) by {
                        let h = s2.handles@[i];
                        assert(fin.handles@[i] == h);
                        assert(s2.handle_to_index@[h as int] == Some(i as usize));
                        assert(h != handle);
                    }
                    assert forall|h: int|
                        0 <= h < fin.handle_to_index@.len() implies ((
                        #[trigger] fin.handle_to_index@[h]) matches Some(j) ==> j
                        < fin.handles@.len() && fin.handles@[j as int] == h) by {
                        if h != handle as int {
                            assert(fin.handle_to_index@[h] == s2.handle_to_index@[h]);
                            if s2.handle_to_index@[h] is Some {
                                let j = s2.handle_to_index@[h]->0;
                                assert(s2.handles@[j as int] == h);
                                assert(j != last);
                                assert(fin.handles@[j as int] == h);
                            }
                        }
                    }
                    assert(!fin.live(handle));
                    assert forall|h: usize| h != handle implies fin.live(h) == old(self).live(
                        h,
                    ) by {
                        if h < s2.handle_to_index@.len() {
                            assert(fin.handle_to_index@[h as int] == s2.handle_to_index@[h as int]);
                        }
                        assert(s2.live(h) == s1.live(h));
                        assert(s1.live(h) == old(self).live(h));
                    }
                    assert forall|h: usize| h != handle && old(self).live(h) implies fin.record_of(
                        h,
                    ) == old(self).record_of(h) && fin.spec_is_visible(h) == old(
                        self,
                    ).spec_is_visible(h) by {
                        let j = s2.index_of(h)->0;
                        assert(fin.handle_to_index@[h as int] == s2.handle_to_index@[h as int]);
                        assert(s2.handle_to_index@[h as int] == Some(j));
                        assert(s2.handles@[j as int] == h);
                        assert(j != last);
                        assert(fin.records()[j as int] == s2.records()[j as int]);
                    }
                }
                match record_opt {
                    Some(record) => Ok(record),
                    None => {
                        proof {
                            assert(false);
                        }
                        Err(InvalidHandle)
                    },
                }
            },
        }
    }

    /// Looks a handle up for mutation; `None` exactly for a dead handle.
    /// The store's structure (handles, indices, visibility) is unchanged;
    /// only the addressed record can be rewritten through the reference.
    pub fn get_mut(&mut self, handle: usize) -> (r: Option<&mut I>)
        requires
            old(self).wf(),
        ensures
            final(self).wf(),
            final(self).handles() == old(self).handles(),
            final(self).first_invisible() == old(self).first_invisible(),
            final(self).next_handle() == old(self).next_handle(),
            forall|h: usize| final(self).index_of(h) == old(self).index_of(h),
            final(self).vertices() == old(self).vertices(),
            final(self).indices() == old(self).indices(),
            final(self).spec_vertex_buffer() == old(self).spec_vertex_buffer(),
            final(self).spec_index_buffer() == old(self).spec_index_buffer(),
            final(self).spec_instance_buffer() == old(self).spec_instance_buffer(),
            match r {
                Some(record) => {
                    &&& old(self).live(handle)
                    &&& *record == old(self).record_of(handle)
                    &&& (old(self).index_of(handle) matches Some(i) && final(self).records()
                        == old(self).records().update(i as int, *final(record)))
                },
                None => !old(self).live(handle) && *final(self) == *old(self),
            },
    {
        if handle >= self.handle_to_index.len() {
            return None;
        }
        let entry = self.handle_to_index[handle];
        match entry {
            Some(index) => Some(&mut self.instances[index]),
            None => None,
        }
    }

    /// Reports whether a live handle is visible; a dead handle is refused.
    pub fn is_visible(&self, handle: usize) -> (r: Result<bool, InvalidHandle>)
        requires
            self.wf(),
        ensures
            r is Ok <==> self.live(handle),
            (r matches Ok(v) ==> v == self.spec_is_visible(handle)),
            r is Err ==> r == Err::<bool, InvalidHandle>(InvalidHandle),
    {
        if handle >= self.handle_to_index.len() {
            return Err(InvalidHandle);
        }
        let entry = self.handle_to_index[handle];
        match entry {
            Some(index) => Ok(index < self.first_invisible),
            None => Err(InvalidHandle),
        }
    }

    /// The byte image the index buffer is synchronised to: the indices as
    /// little-endian 32-bit words.
    pub open spec fn index_payload(&self) -> Seq<u8> {
        device_encoding(self.indices())
    }

    /// Pushes the current index data into the index buffer.
    pub fn update_index_buffer(&mut self, allocator: &mut VkAllocator) -> (r: Result<
        (),
        AllocationError,
    >)
        requires
            old(self).wf(),
            old(self).buffers_wf(),
            old(self).buffers_live_in(*old(allocator)),
            old(allocator).wf(),
            old(allocator).can_issue_allocation(),
            old(allocator).can_issue_buffer(),
        ensures
            final(self).wf(),
            final(self).buffers_wf(),
            final(self).buffers_live_in(*final(allocator)),
            final(allocator).wf(),
            final(allocator).budget() == old(allocator).budget(),
            final(allocator).images_issued() == old(allocator).images_issued(),
            forall|m: crate::allocator::ImageHandle|
                final(allocator).image_live(m) == old(allocator).image_live(m),
            final(self).handles() == old(self).handles(),
            final(self).records() == old(self).records(),
            final(self).first_invisible() == old(self).first_invisible(),
            final(self).next_handle() == old(self).next_handle(),
            forall|h: usize| final(self).index_of(h) == old(self).index_of(h),
            final(self).vertices() == old(self).vertices(),
            final(self).indices() == old(self).indices(),
            final(self).spec_vertex_buffer() == old(self).spec_vertex_buffer(),
            final(self).spec_instance_buffer() == old(self).spec_instance_buffer(),
            r is Ok <==> option_fits(
                old(self).spec_index_buffer(),
                *old(allocator),
                old(self).index_payload().len() as int,
            ),
            r is Ok ==> final(self).spec_index_buffer() is Some && option_capacity(
                final(self).spec_index_buffer(),
            ) == vstd::math::max(
                option_capacity(old(self).spec_index_buffer()),
                old(self).index_payload().len() as int,
            ) && option_contents(final(self).spec_index_buffer()).subrange(
                0,
                old(self).index_payload().len() as int,
            ) == old(self).index_payload(),
            old(self).index_payload().len() <= option_capacity(old(self).spec_index_buffer())
                ==> r is Ok && *final(allocator) == *old(allocator) && option_allocation(
                final(self).spec_index_buffer(),
            ) == option_allocation(old(self).spec_index_buffer()) && option_resource(
                final(self).spec_index_buffer(),
            ) == option_resource(old(self).spec_index_buffer()),
            old(self).index_payload().len() > option_capacity(old(self).spec_index_buffer()) && r
                is Ok ==> {
                &&& final(allocator).used() == old(allocator).used() - option_capacity(
                    old(self).spec_index_buffer(),
                ) + old(self).index_payload().len()
                &&& final(allocator).allocations_issued() == old(allocator).allocations_issued()
                    + 1
                &&& (match option_allocation(old(self).spec_index_buffer()) {
                    Some(a) => !final(allocator).lives(a),
                    None => true,
                })
                &&& forall|o: Allocation|
                    o.id() != option_allocation_id(old(self).spec_index_buffer()) && o.id()
                        != old(allocator).allocations_issued() ==> final(allocator).lives(o)
                        == old(allocator).lives(o)
            },
            r is Err ==> {
                &&& r == Err::<(), AllocationError>(AllocationError::OutOfMemory)
                &&& option_capacity(final(self).spec_index_buffer()) == 0
                &&& final(allocator).used() == old(allocator).used() - option_capacity(
                    old(self).spec_index_buffer(),
                )
                &&& final(allocator).allocations_issued() == old(allocator).allocations_issued()
            },
    {
        proof {
            match option_allocation(old(self).spec_vertex_buffer()) {
                Some(a) => old(allocator).lemma_live_id_bound(a),
                None => (),
            }
            match option_resource(old(self).spec_vertex_buffer()) {
                Some(b) => old(allocator).lemma_buffer_id_bound(b),
                None => (),
            }
            match option_allocation(old(self).spec_instance_buffer()) {
                Some(a) => old(allocator).lemma_live_id_bound(a),
                None => (),
            }
            match option_resource(old(self).spec_instance_buffer()) {
                Some(b) => old(allocator).lemma_buffer_id_bound(b),
                None => (),
            }
        }
        let mut slot = self.index_buffer.take();
        let r = EngineBuffer::sync_slot(&mut slot, allocator, self.index_data.as_slice(), BufferUsage::Index);
        self.index_buffer = slot;
        r
    }

    /// Records the draw of this model: bind the vertex buffer, bind the
    /// instance buffer as the second vertex input, bind the index buffer,
    /// and draw all indices for the visible instances.  A store with no
    /// visible instance (or without complete buffers) records nothing.
    pub fn draw(&self, recorder: &mut CommandRecorder)
        requires
            self.indices().len() <= u32::MAX,
            self.first_invisible() <= u32::MAX,
        ensures
            self.draw_ready() ==> final(recorder).commands() == old(recorder).commands()
                + seq![
                RecordedCommand::BindVertexBuffer {
                    binding: 0,
                    buffer: option_resource(self.spec_vertex_buffer())->0,
                },
                RecordedCommand::BindVertexBuffer {
                    binding: 1,
                    buffer: option_resource(self.spec_instance_buffer())->0,
                },
                RecordedCommand::BindIndexBuffer {
                    buffer: option_resource(self.spec_index_buffer())->0,
                },
                RecordedCommand::DrawIndexed {
                    index_count: self.indices().len() as u32,
                    instance_count: self.first_invisible() as u32,
                },
            ],
            !self.draw_ready() ==> final(recorder).commands() == old(recorder).commands(),
    {
        let vertex_resource = match &self.vertex_buffer {
            Some(b) => b.resource(),
            None => None,
        };
        let index_resource = match &self.index_buffer {
            Some(b) => b.resource(),
            None => None,
        };
        let instance_resource = match &self.instance_buffer {
            Some(b) => b.resource(),
            None => None,
        };
        match (vertex_resource, instance_resource, index_resource) {
            (Some(vertex), Some(instance), Some(index)) => {
                if self.first_invisible > 0 {
                    recorder.record(RecordedCommand::BindVertexBuffer { binding: 0, buffer: vertex });
                    recorder.record(
                        RecordedCommand::BindVertexBuffer { binding: 1, buffer: instance },
                    );
                    recorder.record(RecordedCommand::BindIndexBuffer { buffer: index });
                    recorder.record(
                        RecordedCommand::DrawIndexed {
                            index_count: self.index_data.len() as u32,
                            instance_count: self.first_invisible as u32,
                        },
                    );
                    proof {
                        assert(recorder.commands() =~= old(recorder).commands() + seq![
                            RecordedCommand::BindVertexBuffer {
                                binding: 0,
                                buffer: option_resource(self.spec_vertex_buffer())->0,
                            },
                            RecordedCommand::BindVertexBuffer {
                                binding: 1,
                                buffer: option_resource(self.spec_instance_buffer())->0,
                            },
                            RecordedCommand::BindIndexBuffer {
                                buffer: option_resource(self.spec_index_buffer())->0,
                            },
                            RecordedCommand::DrawIndexed {
                                index_count: self.indices().len() as u32,
                                instance_count: self.first_invisible() as u32,
                            },
                        ]);
                    }
                }
            },
            _ => (),
        }
    }

    /// Releases every buffer the store owns, consuming the store.
    pub fn cleanup(self, allocator: &mut VkAllocator)
        requires
            self.buffers_wf(),
            self.buffers_live_in(*old(allocator)),
            old(allocator).wf(),
        ensures
            final(allocator).wf(),
            final(allocator).budget() == old(allocator).budget(),
            final(allocator).used() == old(allocator).used() - option_capacity(
                self.spec_vertex_buffer(),
            ) - option_capacity(self.spec_index_buffer()) - option_capacity(
                self.spec_instance_buffer(),
            ),
            final(allocator).allocations_issued() == old(allocator).allocations_issued(),
            final(allocator).buffers_issued() == old(allocator).buffers_issued(),
            match option_allocation(self.spec_vertex_buffer()) {
                Some(a) => !final(allocator).lives(a),
                None => true,
            },
            match option_allocation(self.spec_index_buffer()) {
                Some(a) => !final(allocator).lives(a),
                None => true,
            },
            match option_allocation(self.spec_instance_buffer()) {
                Some(a) => !final(allocator).lives(a),
                None => true,
            },
            forall|o: Allocation|
                o.id() != option_allocation_id(self.spec_vertex_buffer()) && o.id()
                    != option_allocation_id(self.spec_index_buffer()) && o.id()
                    != option_allocation_id(self.spec_instance_buffer())
                    ==> final(allocator).lives(o) == old(allocator).lives(o),
            forall|ob: BufferHandle|
                ob.id() != option_buffer_id(self.spec_vertex_buffer()) && ob.id()
                    != option_buffer_id(self.spec_index_buffer()) && ob.id() != option_buffer_id(
                    self.spec_instance_buffer(),
                ) ==> final(allocator).buffer_live(ob) == old(allocator).buffer_live(ob),
    {
        proof {
            match option_allocation(self.spec_vertex_buffer()) {
                Some(a) => old(allocator).lemma_live_id_bound(a),
                None => (),
            }
            match option_resource(self.spec_vertex_buffer()) {
                Some(b) => old(allocator).lemma_buffer_id_bound(b),
                None => (),
            }
            match option_allocation(self.spec_index_buffer()) {
                Some(a) => old(allocator).lemma_live_id_bound(a),
                None => (),
            }
            match option_resource(self.spec_index_buffer()) {
                Some(b) => old(allocator).lemma_buffer_id_bound(b),
                None => (),
            }
            match option_allocation(self.spec_instance_buffer()) {
                Some(a) => old(allocator).lemma_live_id_bound(a),
                None => (),
            }
            match option_resource(self.spec_instance_buffer()) {
                Some(b) => old(allocator).lemma_buffer_id_bound(b),
                None => (),
            }
        }
        let Model { vertex_buffer, index_buffer, instance_buffer, .. } = self;
        match vertex_buffer {
            Some(b) => b.cleanup(allocator),
            None => (),
        }
        match index_buffer {
            Some(b) => b.cleanup(allocator),
            None => (),
        }
        match instance_buffer {
            Some(b) => b.cleanup(allocator),
            None => (),
        }
    }

    /// How many instances are visible (the partition cursor).
    pub fn visible_count(&self) -> (n: usize)
        ensures
            n as int == self.first_invisible(),
    {
        self.first_invisible
    }

    /// How many instances the store holds.
    pub fn instance_count(&self) -> (n: usize)
        ensures
            n as int == self.len(),
    {
        self.instances.len()
    }

    /// The handle owning the record at a dense index.
    pub fn handle_at(&self, index: usize) -> (h: usize)
        requires
            self.wf(),
            index < self.len(),
        ensures
            h == self.handles()[index as int],
    {
        self.handles[index]
    }

    /// The record at a dense index.
    pub fn record_at(&self, index: usize) -> (r: &I)
        requires
            index < self.len(),
        ensures
            *r == self.records()[index as int],
    {
        &self.instances[index]
    }

    /// The dense instance records, visible prefix first.
    pub fn instance_records(&self) -> (r: &Vec<I>)
        ensures
            r@ == self.records(),
    {
        &self.instances
    }

    /// Replaces the mesh (vertex and index data), leaving the instance
    /// store and the buffers untouched; the next buffer update pushes the
    /// new mesh to the device.
    pub fn set_mesh(&mut self, vertex_data: Vec<V>, index_data: Vec<u32>)
        ensures
            final(self).vertices() == vertex_data@,
            final(self).indices() == index_data@,
            final(self).handles() == old(self).handles(),
            final(self).records() == old(self).records(),
            final(self).first_invisible() == old(self).first_invisible(),
            final(self).next_handle() == old(self).next_handle(),
            forall|h: usize| final(self).index_of(h) == old(self).index_of(h),
            final(self).wf() == old(self).wf(),
            final(self).spec_vertex_buffer() == old(self).spec_vertex_buffer(),
            final(self).spec_index_buffer() == old(self).spec_index_buffer(),
            final(self).spec_instance_buffer() == old(self).spec_instance_buffer(),
    {
        self.vertex_data = vertex_data;
        self.index_data = index_data;
    }

    /// The vertex data of the mesh.
    pub fn vertex_data(&self) -> (r: &Vec<V>)
        ensures
            r@ == self.vertices(),
    {
        &self.vertex_data
    }

    /// The index data of the mesh.
    pub fn index_data(&self) -> (r: &Vec<u32>)
        ensures
            r@ == self.indices(),
    {
        &self.index_data
    }

    /// The vertex buffer slot.
    pub fn vertex_buffer(&self) -> (r: &Option<EngineBuffer>)
        ensures
            *r == self.spec_vertex_buffer(),
    {
        &self.vertex_buffer
    }

    /// The index buffer slot.
    pub fn index_buffer(&self) -> (r: &Option<EngineBuffer>)
        ensures
            *r == self.spec_index_buffer(),
    {
        &self.index_buffer
    }

    /// The instance buffer slot.
    pub fn instance_buffer(&self) -> (r: &Option<EngineBuffer>)
        ensures
            *r == self.spec_instance_buffer(),
    {
        &self.instance_buffer
    }
}

impl<V: DeviceBytes, I> Model<V, I> {
    /// The byte image the vertex buffer is synchronised to.
    pub open spec fn vertex_payload(&self) -> Seq<u8> {
        device_encoding(self.vertices())
    }

    /// Pushes the current vertex data into the vertex buffer.
    pub fn update_vertex_buffer(&mut self, allocator: &mut VkAllocator) -> (r: Result<
        (),
        AllocationError,
    >)
        requires
            old(self).wf(),
            old(self).buffers_wf(),
            old(self).buffers_live_in(*old(allocator)),
            old(allocator).wf(),
            old(allocator).can_issue_allocation(),
            old(allocator).can_issue_buffer(),
        ensures
            final(self).wf(),
            final(self).buffers_wf(),
            final(self).buffers_live_in(*final(allocator)),
            final(allocator).wf(),
            final(allocator).budget() == old(allocator).budget(),
            final(allocator).images_issued() == old(allocator).images_issued(),
            forall|m: crate::allocator::ImageHandle|
                final(allocator).image_live(m) == old(allocator).image_live(m),
            final(self).handles() == old(self).handles(),
            final(self).records() == old(self).records(),
            final(self).first_invisible() == old(self).first_invisible(),
            final(self).next_handle() == old(self).next_handle(),
            forall|h: usize| final(self).index_of(h) == old(self).index_of(h),
            final(self).vertices() == old(self).vertices(),
            final(self).indices() == old(self).indices(),
            final(self).spec_index_buffer() == old(self).spec_index_buffer(),
            final(self).spec_instance_buffer() == old(self).spec_instance_buffer(),
            r is Ok <==> option_fits(
                old(self).spec_vertex_buffer(),
                *old(allocator),
                old(self).vertex_payload().len() as int,
            ),
            r is Ok ==> final(self).spec_vertex_buffer() is Some && option_capacity(
                final(self).spec_vertex_buffer(),
            ) == vstd::math::max(
                option_capacity(old(self).spec_vertex_buffer()),
                old(self).vertex_payload().len() as int,
            ) && option_contents(final(self).spec_vertex_buffer()).subrange(
                0,
                old(self).vertex_payload().len() as int,
            ) == old(self).vertex_payload(),
            old(self).vertex_payload().len() <= option_capacity(old(self).spec_vertex_buffer())
                ==> r is Ok && *final(allocator) == *old(allocator) && option_allocation(
                final(self).spec_vertex_buffer(),
            ) == option_allocation(old(self).spec_vertex_buffer()) && option_resource(
                final(self).spec_vertex_buffer(),
            ) == option_resource(old(self).spec_vertex_buffer()),
            old(self).vertex_payload().len() > option_capacity(old(self).spec_vertex_buffer())
                && r is Ok ==> {
                &&& final(allocator).used() == old(allocator).used() - option_capacity(
                    old(self).spec_vertex_buffer(),
                ) + old(self).vertex_payload().len()
                &&& final(allocator).allocations_issued() == old(allocator).allocations_issued()
                    + 1
                &&& (match option_allocation(old(self).spec_vertex_buffer()) {
                    Some(a) => !final(allocator).lives(a),
                    None => true,
                })
                &&& forall|o: Allocation|
                    o.id() != option_allocation_id(old(self).spec_vertex_buffer()) && o.id()
                        != old(allocator).allocations_issued() ==> final(allocator).lives(o)
                        == old(allocator).lives(o)
            },
            r is Err ==> {
                &&& r == Err::<(), AllocationError>(AllocationError::OutOfMemory)
                &&& option_capacity(final(self).spec_vertex_buffer()) == 0
                &&& final(allocator).used() == old(allocator).used() - option_capacity(
                    old(self).spec_vertex_buffer(),
                )
                &&& final(allocator).allocations_issued() == old(allocator).allocations_issued()
            },
    {
        proof {
            match option_allocation(old(self).spec_index_buffer()) {
                Some(a) => old(allocator).lemma_live_id_bound(a),
                None => (),
            }
            match option_resource(old(self).spec_index_buffer()) {
                Some(b) => old(allocator).lemma_buffer_id_bound(b),
                None => (),
            }
            match option_allocation(old(self).spec_instance_buffer()) {
                Some(a) => old(allocator).lemma_live_id_bound(a),
                None => (),
            }
            match option_resource(old(self).spec_instance_buffer()) {
                Some(b) => old(allocator).lemma_buffer_id_bound(b),
                None => (),
            }
        }
        let mut slot = self.vertex_buffer.take();
        let r = EngineBuffer::sync_slot(
            &mut slot,
            allocator,
            self.vertex_data.as_slice(),
            BufferUsage::Vertex,
        );
        self.vertex_buffer = slot;
        r
    }
}

impl<V, I: DeviceBytes> Model<V, I> {
    /// The byte image the instance buffer is synchronised to: the records
    /// of the visible prefix, in dense order.
    pub open spec fn instance_payload(&self) -> Seq<u8> {
        device_encoding(self.records().subrange(0, self.first_invisible()))
    }

    /// Pushes the visible prefix of the instance records into the instance
    /// buffer.
    pub fn update_instance_buffer(&mut self, allocator: &mut VkAllocator) -> (r: Result<
        (),
        AllocationError,
    >)
        requires
            old(self).wf(),
            old(self).buffers_wf(),
            old(self).buffers_live_in(*old(allocator)),
            old(allocator).wf(),
            old(allocator).can_issue_allocation(),
            old(allocator).can_issue_buffer(),
        ensures
            final(self).wf(),
            final(self).buffers_wf(),
            final(self).buffers_live_in(*final(allocator)),
            final(allocator).wf(),
            final(allocator).budget() == old(allocator).budget(),
            final(allocator).images_issued() == old(allocator).images_issued(),
            forall|m: crate::allocator::ImageHandle|
                final(allocator).image_live(m) == old(allocator).image_live(m),
            final(self).handles() == old(self).handles(),
            final(self).records() == old(self).records(),
            final(self).first_invisible() == old(self).first_invisible(),
            final(self).next_handle() == old(self).next_handle(),
            forall|h: usize| final(self).index_of(h) == old(self).index_of(h),
            final(self).vertices() == old(self).vertices(),
            final(self).indices() == old(self).indices(),
            final(self).spec_vertex_buffer() == old(self).spec_vertex_buffer(),
            final(self).spec_index_buffer() == old(self).spec_index_buffer(),
            r is Ok <==> option_fits(
                old(self).spec_instance_buffer(),
                *old(allocator),
                old(self).instance_payload().len() as int,
            ),
            r is Ok ==> final(self).spec_instance_buffer() is Some && option_capacity(
                final(self).spec_instance_buffer(),
            ) == vstd::math::max(
                option_capacity(old(self).spec_instance_buffer()),
                old(self).instance_payload().len() as int,
            ) && option_contents(final(self).spec_instance_buffer()).subrange(
                0,
                old(self).instance_payload().len() as int,
            ) == old(self).instance_payload(),
            old(self).instance_payload().len() <= option_capacity(
                old(self).spec_instance_buffer(),
            ) ==> r is Ok && *final(allocator) == *old(allocator) && option_allocation(
                final(self).spec_instance_buffer(),
            ) == option_allocation(old(self).spec_instance_buffer()) && option_resource(
                final(self).spec_instance_buffer(),
            ) == option_resource(old(self).spec_instance_buffer()),
            old(self).instance_payload().len() > option_capacity(
                old(self).spec_instance_buffer(),
            ) && r is Ok ==> {
                &&& final(allocator).used() == old(allocator).used() - option_capacity(
                    old(self).spec_instance_buffer(),
                ) + old(self).instance_payload().len()
                &&& final(allocator).allocations_issued() == old(allocator).allocations_issued()
                    + 1
                &&& (match option_allocation(old(self).spec_instance_buffer()) {
                    Some(a) => !final(allocator).lives(a),
                    None => true,
                })
                &&& forall|o: Allocation|
                    o.id() != option_allocation_id(old(self).spec_instance_buffer()) && o.id()
                        != old(allocator).allocations_issued() ==> final(allocator).lives(o)
                        == old(allocator).lives(o)
            },
            r is Err ==> {
                &&& r == Err::<(), AllocationError>(AllocationError::OutOfMemory)
                &&& option_capacity(final(self).spec_instance_buffer()) == 0
                &&& final(allocator).used() == old(allocator).used() - option_capacity(
                    old(self).spec_instance_buffer(),
                )
                &&& final(allocator).allocations_issued() == old(allocator).allocations_issued()
            },
    {
        proof {
            match option_allocation(old(self).spec_vertex_buffer()) {
                Some(a) => old(allocator).lemma_live_id_bound(a),
                None => (),
            }
            match option_resource(old(self).spec_vertex_buffer()) {
                Some(b) => old(allocator).lemma_buffer_id_bound(b),
                None => (),
            }
            match option_allocation(old(self).spec_index_buffer()) {
                Some(a) => old(allocator).lemma_live_id_bound(a),
                None => (),
            }
            match option_resource(old(self).spec_index_buffer()) {
                Some(b) => old(allocator).lemma_buffer_id_bound(b),
                None => (),
            }
        }
        let mut slot = self.instance_buffer.take();
        let count = self.first_invisible;
        let whole = self.instances.as_slice();
        let prefix = &whole[0..count];
        let r = EngineBuffer::sync_slot(&mut slot, allocator, prefix, BufferUsage::Vertex);
        self.instance_buffer = slot;
        r
    }
}

/// Partition law: in a consistent store, the handle at a dense index is
/// visible exactly when that index lies below the partition cursor — the
/// visible instances are precisely the prefix `[0, first_invisible)`.
pub proof fn lemma_partition<V, I>(m: &Model<V, I>, i: int)
    requires
        m.wf(),
        0 <= i < m.len(),
    ensures
        m.spec_is_visible(m.handles()[i]) <==> i < m.first_invisible(),
{
    vstd::std_specs::vec::axiom_spec_len(&m.handles);
    lemma_map_consistency(m, i);
}

/// Map-consistency law: in a consistent store, the handle map inverts the
/// dense handle array — `index_of(handles()[i]) == Some(i)` at every dense
/// index.
pub proof fn lemma_map_consistency<V, I>(m: &Model<V, I>, i: int)
    requires
        m.wf(),
        0 <= i < m.len(),
    ensures
        m.index_of(m.handles()[i]) == Some(i as usize),
{
    assert(m.handle_to_index@[m.handles@[i] as int] == Some(i as usize));
}

/// Handle-uniqueness law: in a consistent store, no two dense entries
/// carry the same handle — live handles are pairwise distinct.
pub proof fn lemma_handle_uniqueness<V, I>(m: &Model<V, I>, i: int, j: int)
    requires
        m.wf(),
        0 <= i < m.len(),
        0 <= j < m.len(),
        i != j,
    ensures
        m.handles()[i] != m.handles()[j],
{
    vstd::std_specs::vec::axiom_spec_len(&m.handles);
    lemma_map_consistency(m, i);
    lemma_map_consistency(m, j);
}

/// Handle-freshness law: every live handle lies below the issue counter.
/// Together with `insert` returning exactly the counter and every
/// operation keeping the counter non-decreasing, a removed handle's value
/// is never issued again.
pub proof fn lemma_live_handle_bound<V, I>(m: &Model<V, I>, handle: usize)
    requires
        m.wf(),
        m.live(handle),
    ensures
        (handle as int) < m.next_handle(),
{
}

} // verus!
