//! Ownership-transferable references: typed handles over one shared-heap
//! allocation.  An owning handle releases the allocation when it is
//! destroyed; a borrowing handle wraps externally-owned memory, carries
//! its own small owner-id cell, and never releases the underlying memory.

use vstd::prelude::*;
use crate::AlienError;
use crate::shared_heap::{
    AllocState, DropBehavior, ShareValue, SharedHeap, SharedHeapAllocation,
};

verus! {

/// Marker capability for values that may cross a domain boundary:
/// plain data without embedded references, and compositions of such
/// values.  Only the implementations in this module are intended; a
/// type with interior pointers must never implement it.
pub trait RRefable {

}

impl RRefable for u8 {

}

impl RRefable for u16 {

}

impl RRefable for u32 {

}

impl RRefable for u64 {

}

impl RRefable for usize {

}

impl RRefable for bool {

}

impl RRefable for ShareValue {

}

impl RRefable for RRef {

}

impl RRefable for RRefVec {

}

impl<T: RRefable> RRefable for Option<T> {

}

/// A stable identifier for the shape of a stored value, used to key the
/// drop registry.
pub trait TypeIdentifiable {
    fn type_id(&self) -> u64;
}

impl ShareValue {
    /// The type identifier of this value's shape.
    pub open spec fn spec_type_id(self) -> u64 {
        match self {
            ShareValue::Unit => 0,
            ShareValue::Word(_) => 1,
            ShareValue::Bytes(_) => 2,
            ShareValue::Ref(_) => 3,
            ShareValue::Opt(_) => 4,
            ShareValue::Pair(_, _) => 5,
        }
    }
}

impl TypeIdentifiable for ShareValue {
    fn type_id(&self) -> (r: u64)
        ensures
            r == self.spec_type_id(),
    {
        match self {
            ShareValue::Unit => 0,
            ShareValue::Word(_) => 1,
            ShareValue::Bytes(_) => 2,
            ShareValue::Ref(_) => 3,
            ShareValue::Opt(_) => 4,
            ShareValue::Pair(_, _) => 5,
        }
    }
}

/// Destruction of a cross-domain value; for owning handles this runs
/// the backing allocation's destructor, for borrowing handles it only
/// releases the private owner-id cell.
pub trait CustomDrop {
    spec fn drop_req(self, heap: SharedHeap) -> bool;

    spec fn drop_ens(self, pre: SharedHeap, post: SharedHeap) -> bool;

    fn custom_drop(self, heap: &mut SharedHeap)
        requires
            self.drop_req(*old(heap)),
        ensures
            self.drop_ens(*old(heap), *final(heap)),
    ;
}

/// Ownership transfer of a cross-domain value at a call boundary: the
/// owner tag is rewritten to the receiving domain and the previous
/// owner is returned.
pub trait SharedData: Sized {
    spec fn move_req(self, heap: SharedHeap) -> bool;

    spec fn move_ens(
        pre: Self,
        post: Self,
        pre_heap: SharedHeap,
        post_heap: SharedHeap,
        new_domain_id: u64,
        r: u64,
    ) -> bool;

    fn move_to(&mut self, heap: &mut SharedHeap, new_domain_id: u64) -> (r: u64)
        requires
            old(self).move_req(*old(heap)),
        ensures
            Self::move_ens(*old(self), *final(self), *old(heap), *final(heap), new_domain_id, r),
    ;
}

/// An owning handle to a single shared-heap value.
#[derive(Debug, Clone, Copy, PartialEq, Eq, Structural)]
pub struct RRef {
    pub slot: usize,
}

impl RRef {
    /// The handle refers to a live allocation of the heap.
    pub open spec fn wf(self, heap: SharedHeap) -> bool {
        heap.is_live(self.slot)
    }

    /// Allocate a new shared value of `size` bytes, owned by the domain
    /// the heap instance serves.  Registers recursive destruction for
    /// the value's type on first use.  Fails exactly when the heap has
    /// too little space left.
    pub fn new(heap: &mut SharedHeap, value: ShareValue, size: usize) -> (r: Result<
        RRef,
        AlienError,
    >)
        requires
            old(heap).wf(),
            old(heap).num_slots() < usize::MAX,
        ensures
            final(heap).wf(),
            final(heap).local_domain() == old(heap).local_domain(),
            final(heap).spec_capacity() == old(heap).spec_capacity(),
            size > old(heap).spec_free_space() ==> r == Err::<RRef, AlienError>(
                AlienError::AllocationFailed,
            ) && *final(heap) == *old(heap),
            size <= old(heap).spec_free_space() ==> {
                &&& r is Ok
                &&& r->Ok_0.slot == old(heap).num_slots()
                &&& final(heap).slots() == old(heap).slots().push(
                    (SharedHeapAllocation {
                        value,
                        domain_id: old(heap).local_domain(),
                        borrow_count: 0,
                        size,
                        type_id: value.spec_type_id(),
                        drop_behavior: match old(heap).registered(value.spec_type_id()) {
                            Some(b) => b,
                            None => DropBehavior::Recursive,
                        },
                        state: AllocState::Live,
                    }),
                )
                &&& final(heap).spec_free_space() == old(heap).spec_free_space() - size
                &&& r->Ok_0.wf(*final(heap))
                &&& final(heap).registered(value.spec_type_id()) == Some(
                    match old(heap).registered(value.spec_type_id()) {
                        Some(b) => b,
                        None => DropBehavior::Recursive,
                    },
                )
                &&& forall|t: u64|
                    t != value.spec_type_id() ==> final(heap).registered(t) == old(
                        heap,
                    ).registered(t)
            },
    {
        if size > heap.free_space() {
            return Err(AlienError::AllocationFailed);
        }
        let type_id = value.type_id();
        heap.register_type(type_id, DropBehavior::Recursive);
        match heap.allocate(value, size, type_id) {
            Ok(slot) => Ok(RRef { slot }),
            Err(_) => unreached(),
        }
    }

    /// The domain that currently owns the allocation.
    pub fn domain_id(&self, heap: &SharedHeap) -> (r: u64)
        requires
            heap.slot_ok(self.slot),
        ensures
            r == heap.owner_of(self.slot),
    {
        heap.allocation_domain_id(self.slot)
    }

    /// Read the stored value.
    pub fn get<'a>(&self, heap: &'a SharedHeap) -> (r: &'a ShareValue)
        requires
            self.wf(*heap),
        ensures
            *r == heap.slots()[self.slot as int].value,
    {
        heap.read(self.slot)
    }

    /// Overwrite the stored value.
    pub fn set(&self, heap: &mut SharedHeap, value: ShareValue)
        requires
            old(heap).wf(),
            self.wf(*old(heap)),
        ensures
            final(heap).wf(),
            final(heap).slots() == old(heap).slots().update(
                self.slot as int,
                (SharedHeapAllocation { value, ..old(heap).slots()[self.slot as int] }),
            ),
            self.wf(*final(heap)),
            final(heap).spec_free_space() == old(heap).spec_free_space(),
            final(heap).local_domain() == old(heap).local_domain(),
    {
        heap.write(self.slot, value);
    }

    /// Rewrite the owner tag to `new_domain_id`, returning the previous
    /// owner.  Used exactly once per call boundary by the receiving
    /// side of a dispatch; exclusivity during the transfer is a calling
    /// convention, not enforced — the production store is a plain,
    /// unsynchronised write.
    pub fn move_to(&self, heap: &mut SharedHeap, new_domain_id: u64) -> (r: u64)
        requires
            old(heap).wf(),
            self.wf(*old(heap)),
        ensures
            final(heap).wf(),
            r == old(heap).owner_of(self.slot),
            final(heap).owner_of(self.slot) == new_domain_id,
            self.wf(*final(heap)),
            final(heap).slots() == old(heap).slots().update(
                self.slot as int,
                (SharedHeapAllocation {
                    domain_id: new_domain_id,
                    ..old(heap).slots()[self.slot as int]
                }),
            ),
            final(heap).spec_free_space() == old(heap).spec_free_space(),
            final(heap).local_domain() == old(heap).local_domain(),
    {
        heap.move_to(self.slot, new_domain_id)
    }
}

impl CustomDrop for RRef {
    open spec fn drop_req(self, heap: SharedHeap) -> bool {
        heap.wf()
    }

    open spec fn drop_ens(self, pre: SharedHeap, post: SharedHeap) -> bool {
        &&& post.wf()
        &&& !post.is_live(self.slot)
        &&& post.num_slots() == pre.num_slots()
        &&& post.local_domain() == pre.local_domain()
        &&& forall|i: usize|
            post.is_live(i) ==> pre.is_live(i) && post.slots()[i as int] == pre.slots()[i as int]
        // composite destruction is recursive: the handles nested in the
        // stored value are released with it
        &&& (pre.is_live(self.slot) && pre.slots()[self.slot as int].drop_behavior
            is Recursive) ==> forall|r: usize|
            pre.slots()[self.slot as int].value.refs().contains(r) ==> !post.is_live(r)
        // and released means released once: a handle to an allocation
        // already destroyed changes nothing
        &&& !pre.is_live(self.slot) ==> post == pre
    }

    /// Destroy the handle: the registered destructor of the allocation
    /// runs (releasing nested handles for composite values), exactly
    /// once.
    fn custom_drop(self, heap: &mut SharedHeap) {
        heap.drop_domain_share_data(self.slot);
    }
}

impl SharedData for RRef {
    open spec fn move_req(self, heap: SharedHeap) -> bool {
        heap.wf() && self.wf(heap)
    }

    open spec fn move_ens(
        pre: RRef,
        post: RRef,
        pre_heap: SharedHeap,
        post_heap: SharedHeap,
        new_domain_id: u64,
        r: u64,
    ) -> bool {
        &&& post == pre
        &&& post_heap.wf()
        &&& r == pre_heap.owner_of(pre.slot)
        &&& post_heap.owner_of(pre.slot) == new_domain_id
        &&& post_heap.slots() == pre_heap.slots().update(
            pre.slot as int,
            (SharedHeapAllocation {
                domain_id: new_domain_id,
                ..pre_heap.slots()[pre.slot as int]
            }),
        )
    }

    fn move_to(&mut self, heap: &mut SharedHeap, new_domain_id: u64) -> u64 {
        heap.move_to(self.slot, new_domain_id)
    }
}

/// How a shared array handle is backed: by an allocation it owns, or by
/// externally-owned memory it merely views, with a private owner cell.
#[derive(Debug)]
enum VecBacking {
    Owned { slot: usize },
    Borrowed { owner_cell: u64, data: Vec<u8> },
}

/// An ownership-transferable handle to a shared byte array.  In the
/// owning mode the elements live in one shared-heap allocation; in the
/// borrowing mode the handle exposes a caller's buffer without copying
/// it into the shared heap, and its destruction never touches shared
/// memory.
#[derive(Debug)]
pub struct RRefVec {
    backing: VecBacking,
    size: usize,
}

impl RRefVec {
    pub closed spec fn is_borrowed(self) -> bool {
        self.backing is Borrowed
    }

    pub closed spec fn spec_slot(self) -> usize {
        self.backing->Owned_slot
    }

    pub closed spec fn spec_size(self) -> usize {
        self.size
    }

    /// The elements this handle presents.
    pub closed spec fn view(self, heap: SharedHeap) -> Seq<u8> {
        match self.backing {
            VecBacking::Owned { slot } => heap.slots()[slot as int].value->Bytes_0@,
            VecBacking::Borrowed { owner_cell: _, data } => data@,
        }
    }

    /// The owner tag this handle carries: the allocation's tag in the
    /// owning mode, the private cell in the borrowing mode.
    pub closed spec fn spec_domain_id(self, heap: SharedHeap) -> u64 {
        match self.backing {
            VecBacking::Owned { slot } => heap.owner_of(slot),
            VecBacking::Borrowed { owner_cell, data: _ } => owner_cell,
        }
    }

    pub closed spec fn wf(self, heap: SharedHeap) -> bool {
        match self.backing {
            VecBacking::Owned { slot } => {
                &&& heap.is_live(slot)
                &&& heap.slots()[slot as int].value is Bytes
                &&& heap.slots()[slot as int].value->Bytes_0@.len() == self.size
            }
            VecBacking::Borrowed { owner_cell: _, data } => data@.len() == self.size,
        }
    }

    /// Allocate a shared array of `size` copies of `initial_value`,
    /// owned by the domain the heap serves.  Fails exactly when the
    /// heap has too little space left.
    pub fn new(heap: &mut SharedHeap, initial_value: u8, size: usize) -> (r: Result<
        RRefVec,
        AlienError,
    >)
        requires
            old(heap).wf(),
            old(heap).num_slots() < usize::MAX,
        ensures
            final(heap).wf(),
            final(heap).local_domain() == old(heap).local_domain(),
            size > old(heap).spec_free_space() ==> r == Err::<RRefVec, AlienError>(
                AlienError::AllocationFailed,
            ) && *final(heap) == *old(heap),
            size <= old(heap).spec_free_space() ==> {
                &&& r is Ok
                &&& r->Ok_0.wf(*final(heap))
                &&& !r->Ok_0.is_borrowed()
                &&& r->Ok_0.spec_size() == size
                &&& r->Ok_0.view(*final(heap)) == Seq::new(size as nat, |i: int| initial_value)
                &&& r->Ok_0.spec_domain_id(*final(heap)) == old(heap).local_domain()
                &&& r->Ok_0.spec_slot() == old(heap).num_slots()
                &&& final(heap).num_slots() == old(heap).num_slots() + 1
                &&& forall|i: usize|
                    i < old(heap).num_slots() ==> final(heap).slots()[i as int] == old(
                        heap,
                    ).slots()[i as int]
                &&& final(heap).spec_free_space() == old(heap).spec_free_space() - size
            },
    {
        let elems: Vec<u8> = vec![initial_value; size];
        Self::from_slice(heap, elems.as_slice())
    }

    /// Allocate a shared array holding a copy of `slice`.  Fails
    /// exactly when the heap has too little space left.
    pub fn from_slice(heap: &mut SharedHeap, slice: &[u8]) -> (r: Result<RRefVec, AlienError>)
        requires
            old(heap).wf(),
            old(heap).num_slots() < usize::MAX,
        ensures
            final(heap).wf(),
            final(heap).local_domain() == old(heap).local_domain(),
            slice@.len() > old(heap).spec_free_space() ==> r == Err::<RRefVec, AlienError>(
                AlienError::AllocationFailed,
            ) && *final(heap) == *old(heap),
            slice@.len() <= old(heap).spec_free_space() ==> {
                &&& r is Ok
                &&& r->Ok_0.wf(*final(heap))
                &&& !r->Ok_0.is_borrowed()
                &&& r->Ok_0.spec_size() == slice@.len()
                &&& r->Ok_0.view(*final(heap)) == slice@
                &&& r->Ok_0.spec_domain_id(*final(heap)) == old(heap).local_domain()
                &&& r->Ok_0.spec_slot() == old(heap).num_slots()
                &&& final(heap).num_slots() == old(heap).num_slots() + 1
                &&& forall|i: usize|
                    i < old(heap).num_slots() ==> final(heap).slots()[i as int] == old(
                        heap,
                    ).slots()[i as int]
                &&& final(heap).spec_free_space() == old(heap).spec_free_space() - slice@.len()
            },
    {
        let size = slice.len();
        if size > heap.free_space() {
            return Err(AlienError::AllocationFailed);
        }
        let data: Vec<u8> = slice_to_vec(slice);
        let value = ShareValue::Bytes(data);
        let type_id = value.type_id();
        heap.register_type(type_id, DropBehavior::Recursive);
        match heap.allocate(value, size, type_id) {
            Ok(slot) => Ok(RRefVec { backing: VecBacking::Owned { slot }, size }),
            Err(_) => unreached(),
        }
    }

    /// Expose a caller's buffer as a shared array without copying it
    /// into the shared heap: the handle borrows the memory, carries its
    /// own owner-id cell stamped with the serving domain, and its
    /// destruction leaves the buffer alone.
    pub fn from_other_rvec_slice(heap: &SharedHeap, slice: &[u8]) -> (r: RRefVec)
        ensures
            r.wf(*heap),
            r.is_borrowed(),
            r.spec_size() == slice@.len(),
            r.view(*heap) == slice@,
            r.spec_domain_id(*heap) == heap.local_domain(),
    {
        let data: Vec<u8> = slice_to_vec(slice);
        let size = data.len();
        RRefVec { backing: VecBacking::Borrowed { owner_cell: heap.domain_id(), data }, size }
    }

    pub fn size(&self) -> (r: usize)
        ensures
            r == self.spec_size(),
    {
        self.size
    }

    pub fn len(&self) -> (r: usize)
        ensures
            r == self.spec_size(),
    {
        self.size
    }

    pub fn is_empty(&self) -> (r: bool)
        ensures
            r == (self.spec_size() == 0),
    {
        self.size == 0
    }

    pub fn borrowed(&self) -> (r: bool)
        ensures
            r == self.is_borrowed(),
    {
        match &self.backing {
            VecBacking::Owned { .. } => false,
            VecBacking::Borrowed { .. } => true,
        }
    }

    /// The owner tag this handle carries.
    pub fn domain_id(&self, heap: &SharedHeap) -> (r: u64)
        requires
            self.wf(*heap),
        ensures
            r == self.spec_domain_id(*heap),
    {
        match &self.backing {
            VecBacking::Owned { slot } => heap.allocation_domain_id(*slot),
            VecBacking::Borrowed { owner_cell, .. } => *owner_cell,
        }
    }

    /// The elements, as a slice.
    pub fn as_slice<'a>(&'a self, heap: &'a SharedHeap) -> (r: &'a [u8])
        requires
            self.wf(*heap),
        ensures
            r@ == self.view(*heap),
    {
        match &self.backing {
            VecBacking::Owned { slot } => {
                match heap.read(*slot) {
                    ShareValue::Bytes(v) => v.as_slice(),
                    _ => unreached(),
                }
            }
            VecBacking::Borrowed { data, .. } => data.as_slice(),
        }
    }

    /// Rewrite the owner tag to `new_domain_id`, returning the previous
    /// owner; a borrowing handle rewrites only its private cell.
    pub fn move_to(&mut self, heap: &mut SharedHeap, new_domain_id: u64) -> (r: u64)
        requires
            old(heap).wf(),
            old(self).wf(*old(heap)),
        ensures
            final(heap).wf(),
            final(self).wf(*final(heap)),
            r == old(self).spec_domain_id(*old(heap)),
            final(self).spec_domain_id(*final(heap)) == new_domain_id,
            final(self).view(*final(heap)) == old(self).view(*old(heap)),
            final(self).spec_size() == old(self).spec_size(),
            final(self).is_borrowed() == old(self).is_borrowed(),
            !old(self).is_borrowed() ==> final(self).spec_slot() == old(self).spec_slot(),
            final(heap).local_domain() == old(heap).local_domain(),
            final(heap).spec_free_space() == old(heap).spec_free_space(),
            // only the named allocation's owner tag may change
            old(self).is_borrowed() ==> *final(heap) == *old(heap),
            !old(self).is_borrowed() ==> final(heap).slots() == old(heap).slots().update(
                old(self).spec_slot() as int,
                (SharedHeapAllocation {
                    domain_id: new_domain_id,
                    ..old(heap).slots()[old(self).spec_slot() as int]
                }),
            ),
    {
        match &mut self.backing {
            VecBacking::Owned { slot } => heap.move_to(*slot, new_domain_id),
            VecBacking::Borrowed { owner_cell, .. } => {
                let old_id = *owner_cell;
                *owner_cell = new_domain_id;
                old_id
            }
        }
    }

}

impl CustomDrop for RRefVec {
    open spec fn drop_req(self, heap: SharedHeap) -> bool {
        heap.wf()
    }

    open spec fn drop_ens(self, pre: SharedHeap, post: SharedHeap) -> bool {
        &&& post.wf()
        &&& self.is_borrowed() ==> post == pre
        &&& !self.is_borrowed() ==> !post.is_live(self.spec_slot())
        &&& post.num_slots() == pre.num_slots()
        &&& post.local_domain() == pre.local_domain()
        &&& forall|i: usize|
            post.is_live(i) ==> pre.is_live(i) && post.slots()[i as int] == pre.slots()[i as int]
        // released means released once: a handle to an allocation
        // already destroyed changes nothing
        &&& (!self.is_borrowed() && !pre.is_live(self.spec_slot())) ==> post == pre
    }

    /// Destroy the handle.  An owning handle runs the allocation's
    /// registered destructor, exactly once; a borrowing handle only
    /// gives up its private owner-id cell and leaves the heap alone.
    fn custom_drop(self, heap: &mut SharedHeap) {
        match self.backing {
            VecBacking::Owned { slot } => {
                heap.drop_domain_share_data(slot);
            }
            VecBacking::Borrowed { .. } => {}
        }
    }
}

impl SharedData for RRefVec {
    open spec fn move_req(self, heap: SharedHeap) -> bool {
        heap.wf() && self.wf(heap)
    }

    open spec fn move_ens(
        pre: RRefVec,
        post: RRefVec,
        pre_heap: SharedHeap,
        post_heap: SharedHeap,
        new_domain_id: u64,
        r: u64,
    ) -> bool {
        &&& post_heap.wf()
        &&& post.wf(post_heap)
        &&& r == pre.spec_domain_id(pre_heap)
        &&& post.spec_domain_id(post_heap) == new_domain_id
        &&& post.view(post_heap) == pre.view(pre_heap)
        &&& post.spec_size() == pre.spec_size()
        &&& post.is_borrowed() == pre.is_borrowed()
        &&& pre.is_borrowed() ==> post_heap == pre_heap
        &&& !pre.is_borrowed() ==> post_heap.slots() == pre_heap.slots().update(
            pre.spec_slot() as int,
            (SharedHeapAllocation {
                domain_id: new_domain_id,
                ..pre_heap.slots()[pre.spec_slot() as int]
            }),
        )
    }

    fn move_to(&mut self, heap: &mut SharedHeap, new_domain_id: u64) -> u64 {
        RRefVec::move_to(self, heap, new_domain_id)
    }
}

/// How an owning shared-array handle reads the heap: its owner tag is
/// the allocation's tag and its elements are the allocation's bytes.
pub proof fn lemma_owned_handle(v: RRefVec, heap: SharedHeap)
    requires
        !v.is_borrowed(),
    ensures
        v.spec_domain_id(heap) == heap.owner_of(v.spec_slot()),
        v.wf(heap) ==> heap.is_live(v.spec_slot()) && heap.slots()[v.spec_slot() as int].value
            is Bytes && v.view(heap) == heap.slots()[v.spec_slot() as int].value->Bytes_0@
            && v.view(heap).len() == v.spec_size(),
{
}

impl SharedData for Option<RRef> {
    open spec fn move_req(self, heap: SharedHeap) -> bool {
        match self {
            Some(r) => heap.wf() && r.wf(heap),
            None => heap.wf(),
        }
    }

    open spec fn move_ens(
        pre: Option<RRef>,
        post: Option<RRef>,
        pre_heap: SharedHeap,
        post_heap: SharedHeap,
        new_domain_id: u64,
        r: u64,
    ) -> bool {
        &&& post == pre
        &&& post_heap.wf()
        &&& match pre {
            Some(h) => r == pre_heap.owner_of(h.slot) && post_heap.owner_of(h.slot)
                == new_domain_id && post_heap.slots() == pre_heap.slots().update(
                h.slot as int,
                (SharedHeapAllocation {
                    domain_id: new_domain_id,
                    ..pre_heap.slots()[h.slot as int]
                }),
            ),
            None => r == 0 && post_heap == pre_heap,
        }
    }

    /// An absent value has no owner to rewrite and reports domain 0.
    fn move_to(&mut self, heap: &mut SharedHeap, new_domain_id: u64) -> u64 {
        match self {
            Some(h) => heap.move_to(h.slot, new_domain_id),
            None => 0,
        }
    }
}

/// Copy a byte slice into a fresh vector.
pub(crate) fn slice_to_vec(slice: &[u8]) -> (r: Vec<u8>)
    ensures
        r@ == slice@,
{
    let mut out: Vec<u8> = Vec::new();
    let n = slice.len();
    let mut i: usize = 0;
    while i < n
        invariant
            i <= n,
            n == slice@.len(),
            out@ == slice@.take(i as int),
        decreases n - i,
    {
        out.push(slice[i]);
        proof {
            assert(out@ =~= slice@.take(i as int + 1));
        }
        i += 1;
    }
    proof {
        assert(slice@.take(n as int) =~= slice@);
    }
    out
}

} // verus!
