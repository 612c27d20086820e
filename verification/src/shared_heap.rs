//! The shared heap: allocations that may be referenced across domain
//! boundaries.  Every allocation is tagged with the domain that owns it,
//! a type identifier, and the destruction behaviour resolved once from
//! the type registry.  Ownership moves by rewriting the tag; destruction
//! runs at most once per allocation and, for composite values, follows
//! nested handles recursively.

use vstd::prelude::*;

verus! {

/// How the registered destructor of a type behaves: either it follows
/// the nested handles of a composite value and releases them too, or it
/// is the default no-op installed for types that register nothing.
#[derive(Debug, Clone, Copy, PartialEq, Eq, Structural)]
pub enum DropBehavior {
    /// Release nested shared-heap handles before the allocation itself.
    Recursive,
    /// Release only the allocation itself.
    NoOp,
}

/// Whether an allocation's backing memory is still held.
#[derive(Debug, Clone, Copy, PartialEq, Eq, Structural)]
pub enum AllocState {
    Live,
    Freed,
}

/// A value stored in one shared-heap allocation: plain words and byte
/// arrays, options, pairs (struct fields and tuples nest as pairs), and
/// handles of further shared-heap allocations.
#[derive(Debug)]
pub enum ShareValue {
    Unit,
    Word(u64),
    Bytes(Vec<u8>),
    /// a nested shared-heap handle, by slot number
    Ref(usize),
    Opt(Option<Box<ShareValue>>),
    Pair(Box<ShareValue>, Box<ShareValue>),
}

impl ShareValue {
    /// The slot numbers of the handles nested in this value.
    pub open spec fn refs(self) -> Set<usize>
        decreases self,
    {
        match self {
            ShareValue::Ref(h) => set![h],
            ShareValue::Opt(Some(b)) => b.refs(),
            ShareValue::Pair(a, b) => a.refs().union(b.refs()),
            _ => Set::empty(),
        }
    }
}

/// Collect the nested handles of a value into a vector.
fn collect_refs_into(v: &ShareValue, out: &mut Vec<usize>)
    ensures
        final(out)@.len() >= old(out)@.len(),
        forall|h: usize|
            #[trigger] final(out)@.contains(h) <==> old(out)@.contains(h) || v.refs().contains(h),
    decreases v,
{
    match v {
        ShareValue::Ref(h) => {
            let ghost pre = out@;
            out.push(*h);
            proof {
                assert forall|x: usize| #[trigger] out@.contains(x) implies pre.contains(x) || x
                    == *h by {
                    let i = choose|i: int| 0 <= i < out@.len() && out@[i] == x;
                    if i < pre.len() {
                        assert(pre[i] == x);
                    }
                }
                assert forall|x: usize| pre.contains(x) implies out@.contains(x) by {
                    let i = choose|i: int| 0 <= i < pre.len() && pre[i] == x;
                    assert(out@[i] == x);
                }
                assert(out@[out@.len() - 1] == *h);
                assert(out@.contains(*h));
            }
        }
        ShareValue::Opt(opt) => {
            match opt {
                Some(b) => collect_refs_into(b, out),
                None => {}
            }
        }
        ShareValue::Pair(a, b) => {
            collect_refs_into(a, out);
            collect_refs_into(b, out);
        }
        _ => {}
    }
}

/// One shared-heap allocation: the stored value, the owning domain's
/// tag, the borrow count, the layout size, the type identifier, and the
/// destruction behaviour resolved from the registry when the allocation
/// was made.
#[derive(Debug)]
pub struct SharedHeapAllocation {
    pub value: ShareValue,
    pub domain_id: u64,
    pub borrow_count: u64,
    pub size: usize,
    pub type_id: u64,
    pub drop_behavior: DropBehavior,
    pub state: AllocState,
}

impl SharedHeapAllocation {
    /// The owning domain's tag.
    pub fn domain_id(&self) -> (r: u64)
        ensures
            r == self.domain_id,
    {
        self.domain_id
    }
}

/// Bytes a live allocation contributes to the heap's used space.
pub open spec fn alloc_contrib(a: SharedHeapAllocation) -> int {
    if a.state is Live {
        a.size as int
    } else {
        0
    }
}

/// Total bytes held by live allocations.
pub open spec fn live_bytes(s: Seq<SharedHeapAllocation>) -> int
    decreases s.len(),
{
    if s.len() == 0 {
        0
    } else {
        live_bytes(s.drop_last()) + alloc_contrib(s.last())
    }
}

/// Number of live allocations.
pub open spec fn live_count(s: Seq<SharedHeapAllocation>) -> int
    decreases s.len(),
{
    if s.len() == 0 {
        0
    } else {
        live_count(s.drop_last()) + if s.last().state is Live {
            1int
        } else {
            0int
        }
    }
}

pub proof fn lemma_live_sums_nonneg(s: Seq<SharedHeapAllocation>)
    ensures
        live_bytes(s) >= 0,
        live_count(s) >= 0,
    decreases s.len(),
{
    if s.len() > 0 {
        lemma_live_sums_nonneg(s.drop_last());
    }
}

pub proof fn lemma_live_sums_push(s: Seq<SharedHeapAllocation>, x: SharedHeapAllocation)
    ensures
        live_bytes(s.push(x)) == live_bytes(s) + alloc_contrib(x),
        live_count(s.push(x)) == live_count(s) + if x.state is Live {
            1int
        } else {
            0int
        },
{
    assert(s.push(x).drop_last() =~= s);
    assert(s.push(x).last() == x);
}

pub proof fn lemma_live_sums_update(s: Seq<SharedHeapAllocation>, i: int, x: SharedHeapAllocation)
    requires
        0 <= i < s.len(),
    ensures
        live_bytes(s.update(i, x)) == live_bytes(s) - alloc_contrib(s[i]) + alloc_contrib(x),
        live_count(s.update(i, x)) == live_count(s) - (if s[i].state is Live {
            1int
        } else {
            0int
        }) + if x.state is Live {
            1int
        } else {
            0int
        },
    decreases s.len(),
{
    if i == s.len() - 1 {
        assert(s.update(i, x).drop_last() =~= s.drop_last());
        assert(s.update(i, x).last() == x);
        assert(s.drop_last().push(s.last()) =~= s);
        lemma_live_sums_push(s.drop_last(), s.last());
    } else {
        assert(s.update(i, x).drop_last() =~= s.drop_last().update(i, x));
        assert(s.update(i, x).last() == s.last());
        lemma_live_sums_update(s.drop_last(), i, x);
    }
}

/// A live allocation's size never exceeds the live total.
pub proof fn lemma_live_bytes_bound(s: Seq<SharedHeapAllocation>, i: int)
    requires
        0 <= i < s.len(),
        s[i].state is Live,
    ensures
        s[i].size <= live_bytes(s),
    decreases s.len(),
{
    lemma_live_sums_nonneg(s.drop_last());
    if i == s.len() - 1 {
    } else {
        lemma_live_bytes_bound(s.drop_last(), i);
    }
}

/// The registry's lookup: the behaviour recorded for a type identifier.
pub open spec fn registry_lookup(s: Seq<(u64, DropBehavior)>, type_id: u64) -> Option<DropBehavior>
    decreases s.len(),
{
    if s.len() == 0 {
        None
    } else if s.last().0 == type_id {
        Some(s.last().1)
    } else {
        registry_lookup(s.drop_last(), type_id)
    }
}

proof fn lemma_registry_lookup_at(s: Seq<(u64, DropBehavior)>, type_id: u64, i: int)
    requires
        forall|p: int, q: int| 0 <= p < q < s.len() ==> s[p].0 != s[q].0,
        0 <= i < s.len(),
        s[i].0 == type_id,
    ensures
        registry_lookup(s, type_id) == Some(s[i].1),
    decreases s.len(),
{
    if i == s.len() - 1 {
    } else {
        assert(s.last().0 != type_id);
        assert(s.drop_last()[i] == s[i]);
        lemma_registry_lookup_at(s.drop_last(), type_id, i);
    }
}

proof fn lemma_registry_lookup_absent(s: Seq<(u64, DropBehavior)>, type_id: u64)
    requires
        forall|p: int| 0 <= p < s.len() ==> s[p].0 != type_id,
    ensures
        registry_lookup(s, type_id) is None,
    decreases s.len(),
{
    if s.len() > 0 {
        assert(forall|p: int| 0 <= p < s.drop_last().len() ==> s.drop_last()[p] == s[p]);
        lemma_registry_lookup_absent(s.drop_last(), type_id);
    }
}

/// What a reclaim pass does with the shared allocations of a domain:
/// free them, or keep them alive and hand them to a successor domain.
#[derive(Debug, Clone, Copy, PartialEq, Eq, Structural)]
pub enum FreeShared {
    /// Free every allocation still tagged to the domain.
    Free,
    /// Keep the allocations and retag them to the given successor.
    NotFree(u64),
}

/// The shared heap itself: the allocation slots, the registry mapping a
/// type identifier to its destruction behaviour, the remaining backing
/// space, and the id of the domain this allocator instance serves.
#[derive(Debug)]
pub struct SharedHeap {
    slots: Vec<SharedHeapAllocation>,
    registry: Vec<(u64, DropBehavior)>,
    capacity: usize,
    free_bytes: usize,
    domain_id: u64,
}

impl SharedHeap {
    /// The allocation slots, by slot number.
    pub closed spec fn slots(self) -> Seq<SharedHeapAllocation> {
        self.slots@
    }

    pub open spec fn num_slots(self) -> nat {
        self.slots().len()
    }

    pub open spec fn slot_ok(self, h: usize) -> bool {
        h < self.num_slots()
    }

    pub open spec fn is_live(self, h: usize) -> bool {
        self.slot_ok(h) && self.slots()[h as int].state is Live
    }

    pub open spec fn owner_of(self, h: usize) -> u64 {
        self.slots()[h as int].domain_id
    }

    /// The registered destruction behaviour of a type, if any.
    pub closed spec fn registered(self, type_id: u64) -> Option<DropBehavior> {
        registry_lookup(self.registry@, type_id)
    }

    pub closed spec fn spec_free_space(self) -> usize {
        self.free_bytes
    }

    pub closed spec fn spec_capacity(self) -> usize {
        self.capacity
    }

    /// The id of the domain this allocator instance serves; new
    /// allocations are stamped with it.
    pub closed spec fn local_domain(self) -> u64 {
        self.domain_id
    }

    /// Well-formedness: the free space and the bytes held by live
    /// allocations account exactly for the capacity, and the registry
    /// holds at most one entry per type.
    pub closed spec fn wf(self) -> bool {
        &&& self.free_bytes + live_bytes(self.slots@) == self.capacity
        &&& forall|i: int, j: int|
            0 <= i < j < self.registry@.len() ==> self.registry@[i].0 != self.registry@[j].0
    }

    /// Set up the shared heap over `capacity` bytes of backing memory,
    /// serving the domain `domain_id`.
    pub fn init(capacity: usize, domain_id: u64) -> (h: SharedHeap)
        ensures
            h.wf(),
            h.num_slots() == 0,
            h.spec_free_space() == capacity,
            h.spec_capacity() == capacity,
            h.local_domain() == domain_id,
            forall|t: u64| h.registered(t) is None,
    {
        SharedHeap {
            slots: Vec::new(),
            registry: Vec::new(),
            capacity,
            free_bytes: capacity,
            domain_id,
        }
    }

    pub fn domain_id(&self) -> (r: u64)
        ensures
            r == self.local_domain(),
    {
        self.domain_id
    }

    pub fn free_space(&self) -> (r: usize)
        ensures
            r == self.spec_free_space(),
    {
        self.free_bytes
    }

    pub fn num_allocations(&self) -> (r: usize)
        ensures
            r == self.num_slots(),
    {
        self.slots.len()
    }

    pub fn slot_is_live(&self, h: usize) -> (r: bool)
        requires
            self.slot_ok(h),
        ensures
            r == self.is_live(h),
    {
        match self.slots[h].state {
            AllocState::Live => true,
            AllocState::Freed => false,
        }
    }

    /// The owner tag of allocation `h`.
    pub fn allocation_domain_id(&self, h: usize) -> (r: u64)
        requires
            self.slot_ok(h),
        ensures
            r == self.owner_of(h),
    {
        self.slots[h].domain_id
    }

    /// Read the value stored in allocation `h`.
    pub fn read(&self, h: usize) -> (r: &ShareValue)
        requires
            self.is_live(h),
        ensures
            *r == self.slots()[h as int].value,
    {
        &self.slots[h].value
    }

    /// Overwrite the value stored in allocation `h`.
    pub fn write(&mut self, h: usize, v: ShareValue)
        requires
            old(self).wf(),
            old(self).is_live(h),
        ensures
            final(self).wf(),
            final(self).slots() == old(self).slots().update(
                h as int,
                (SharedHeapAllocation { value: v, ..old(self).slots()[h as int] }),
            ),
            final(self).spec_free_space() == old(self).spec_free_space(),
            final(self).spec_capacity() == old(self).spec_capacity(),
            final(self).local_domain() == old(self).local_domain(),
            forall|t: u64| final(self).registered(t) == old(self).registered(t),
    {
        let ghost snap = self.slots@;
        let ghost i = h as int;
        let ghost updated = SharedHeapAllocation { value: v, ..snap[i] };
        let slot = &mut self.slots[h];
        slot.value = v;
        proof {
            assert(self.slots@ =~= snap.update(i, updated));
            lemma_live_sums_update(snap, i, updated);
        }
    }

    /// Record the destruction behaviour of a type on its first use; a
    /// later registration of the same type is ignored.
    pub fn register_type(&mut self, type_id: u64, behavior: DropBehavior)
        requires
            old(self).wf(),
        ensures
            final(self).wf(),
            final(self).registered(type_id) == match old(self).registered(type_id) {
                Some(b) => Some(b),
                None => Some(behavior),
            },
            forall|t: u64| t != type_id ==> final(self).registered(t) == old(self).registered(t),
            final(self).slots() == old(self).slots(),
            final(self).spec_free_space() == old(self).spec_free_space(),
            final(self).spec_capacity() == old(self).spec_capacity(),
            final(self).local_domain() == old(self).local_domain(),
    {
        let n = self.registry.len();
        let mut i: usize = 0;
        while i < n
            invariant
                i <= n,
                n == self.registry@.len(),
                forall|j: int| 0 <= j < i ==> self.registry@[j].0 != type_id,
                *self == *old(self),
                old(self).wf(),
            decreases n - i,
        {
            if self.registry[i].0 == type_id {
                proof {
                    lemma_registry_lookup_at(self.registry@, type_id, i as int);
                }
                return ;
            }
            i += 1;
        }
        let ghost snap = self.registry@;
        proof {
            lemma_registry_lookup_absent(snap, type_id);
        }
        self.registry.push((type_id, behavior));
        proof {
            assert(self.registry@.drop_last() =~= snap);
            assert(self.registry@.last() == (type_id, behavior));
            assert forall|t: u64| t != type_id implies registry_lookup(self.registry@, t)
                == registry_lookup(snap, t) by {
            }
            assert forall|p: int, q: int|
                0 <= p < q < self.registry@.len() implies self.registry@[p].0
                != self.registry@[q].0 by {
                if q == self.registry@.len() - 1 {
                    assert(self.registry@[p] == snap[p]);
                }
            }
        }
    }

    /// Look up the registered destruction behaviour of a type.
    pub fn lookup_registered(&self, type_id: u64) -> (r: Option<DropBehavior>)
        requires
            self.wf(),
        ensures
            r == self.registered(type_id),
    {
        let n = self.registry.len();
        let mut i: usize = 0;
        while i < n
            invariant
                i <= n,
                n == self.registry@.len(),
                forall|j: int| 0 <= j < i ==> self.registry@[j].0 != type_id,
                self.wf(),
            decreases n - i,
        {
            if self.registry[i].0 == type_id {
                proof {
                    lemma_registry_lookup_at(self.registry@, type_id, i as int);
                }
                return Some(self.registry[i].1);
            }
            i += 1;
        }
        proof {
            lemma_registry_lookup_absent(self.registry@, type_id);
        }
        None
    }

    /// Allocate `size` bytes for a value of type `type_id`, stamping the
    /// owner tag with this instance's domain.  The destruction behaviour
    /// is resolved from the registry once, here; a type that registered
    /// nothing gets the default no-op entry.  Fails exactly when the
    /// backing memory left is too small.
    pub fn allocate(&mut self, value: ShareValue, size: usize, type_id: u64) -> (r: Result<
        usize,
        crate::AlienError,
    >)
        requires
            old(self).wf(),
            old(self).num_slots() < usize::MAX,
        ensures
            final(self).wf(),
            final(self).spec_capacity() == old(self).spec_capacity(),
            final(self).local_domain() == old(self).local_domain(),
            size > old(self).spec_free_space() ==> r == Err::<usize, crate::AlienError>(
                crate::AlienError::AllocationFailed,
            ) && *final(self) == *old(self),
            size <= old(self).spec_free_space() ==> {
                &&& r == Ok::<usize, crate::AlienError>(old(self).num_slots() as usize)
                &&& final(self).slots() == old(self).slots().push(
                    (SharedHeapAllocation {
                        value,
                        domain_id: old(self).local_domain(),
                        borrow_count: 0,
                        size,
                        type_id,
                        drop_behavior: match old(self).registered(type_id) {
                            Some(b) => b,
                            None => DropBehavior::NoOp,
                        },
                        state: AllocState::Live,
                    }),
                )
                &&& final(self).spec_free_space() == old(self).spec_free_space() - size
                &&& final(self).registered(type_id) == Some(
                    match old(self).registered(type_id) {
                        Some(b) => b,
                        None => DropBehavior::NoOp,
                    },
                )
                &&& forall|t: u64|
                    t != type_id ==> final(self).registered(t) == old(self).registered(t)
            },
    {
        if size > self.free_bytes {
            return Err(crate::AlienError::AllocationFailed);
        }
        let behavior = match self.lookup_registered(type_id) {
            Some(b) => b,
            None => {
                self.register_type(type_id, DropBehavior::NoOp);
                DropBehavior::NoOp
            }
        };
        let h = self.slots.len();
        let slot = SharedHeapAllocation {
            value,
            domain_id: self.domain_id,
            borrow_count: 0,
            size,
            type_id,
            drop_behavior: behavior,
            state: AllocState::Live,
        };
        self.free_bytes = self.free_bytes - size;
        proof {
            lemma_live_sums_push(self.slots@, slot);
        }
        self.slots.push(slot);
        Ok(h)
    }

    /// Rewrite the owner tag of allocation `h`, returning the previous
    /// owner.  This is how ownership moves between domains at a call
    /// boundary.
    pub fn move_to(&mut self, h: usize, new_domain_id: u64) -> (r: u64)
        requires
            old(self).wf(),
            old(self).is_live(h),
        ensures
            final(self).wf(),
            r == old(self).owner_of(h),
            final(self).owner_of(h) == new_domain_id,
            final(self).slots() == old(self).slots().update(
                h as int,
                (SharedHeapAllocation { domain_id: new_domain_id, ..old(self).slots()[h as int] }),
            ),
            final(self).is_live(h),
            final(self).spec_free_space() == old(self).spec_free_space(),
            final(self).spec_capacity() == old(self).spec_capacity(),
            final(self).local_domain() == old(self).local_domain(),
            forall|t: u64| final(self).registered(t) == old(self).registered(t),
    {
        let ghost snap = self.slots@;
        let ghost i = h as int;
        let ghost updated = SharedHeapAllocation { domain_id: new_domain_id, ..snap[i] };
        let slot = &mut self.slots[h];
        let old_id = slot.domain_id;
        slot.domain_id = new_domain_id;
        proof {
            assert(self.slots@ =~= snap.update(i, updated));
            lemma_live_sums_update(snap, i, updated);
        }
        old_id
    }

    /// Release exactly allocation `h`, returning its bytes to the pool.
    fn release_one(&mut self, h: usize)
        requires
            old(self).wf(),
            old(self).is_live(h),
        ensures
            final(self).wf(),
            final(self).slots() == old(self).slots().update(
                h as int,
                (SharedHeapAllocation {
                    value: ShareValue::Unit,
                    state: AllocState::Freed,
                    ..old(self).slots()[h as int]
                }),
            ),
            final(self).spec_free_space() == old(self).spec_free_space() + old(self).slots()[h as int].size,
            final(self).spec_capacity() == old(self).spec_capacity(),
            final(self).local_domain() == old(self).local_domain(),
            forall|t: u64| final(self).registered(t) == old(self).registered(t),
            live_count(final(self).slots()) == live_count(old(self).slots()) - 1,
    {
        let ghost snap = self.slots@;
        let ghost i = h as int;
        proof {
            lemma_live_bytes_bound(snap, i);
            lemma_live_sums_nonneg(snap);
        }
        let size = self.slots[h].size;
        let ghost updated = SharedHeapAllocation {
            value: ShareValue::Unit,
            state: AllocState::Freed,
            ..snap[i]
        };
        let slot = &mut self.slots[h];
        slot.value = ShareValue::Unit;
        slot.state = AllocState::Freed;
        proof {
            assert(self.slots@ =~= snap.update(i, updated));
            lemma_live_sums_update(snap, i, updated);
        }
        self.free_bytes = self.free_bytes + size;
    }

    /// Run the registered destructor of allocation `h`: the allocation
    /// is released, and, when its type registered recursive destruction,
    /// the handles nested in its value are released too, each at most
    /// once.  Releasing an already-freed or out-of-range handle is a
    /// no-op, so no allocation's destructor ever runs twice.
    pub fn drop_domain_share_data(&mut self, h: usize)
        requires
            old(self).wf(),
        ensures
            final(self).wf(),
            final(self).num_slots() == old(self).num_slots(),
            final(self).spec_capacity() == old(self).spec_capacity(),
            final(self).local_domain() == old(self).local_domain(),
            forall|t: u64| final(self).registered(t) == old(self).registered(t),
            // the named allocation is gone
            !final(self).is_live(h),
            // destruction only releases: every surviving allocation is untouched
            forall|i: usize|
                final(self).is_live(i) ==> old(self).is_live(i) && final(self).slots()[i as int]
                    == old(self).slots()[i as int],
            // allocations already freed are left exactly as they were
            forall|i: usize|
                old(self).slot_ok(i) && !old(self).is_live(i) ==> final(self).slots()[i as int]
                    == old(self).slots()[i as int],
            final(self).spec_free_space() >= old(self).spec_free_space(),
            // releasing a dead handle changes nothing
            !old(self).is_live(h) ==> *final(self) == *old(self),
            // recursive destruction releases the handles nested in the value
            (old(self).is_live(h) && old(self).slots()[h as int].drop_behavior is Recursive)
                ==> forall|r: usize|
                old(self).slots()[h as int].value.refs().contains(r) ==> !final(self).is_live(r),
            // when the value nests no other live handle, destruction
            // releases exactly the named allocation
            (old(self).is_live(h) && old(self).slots()[h as int].drop_behavior is Recursive
                && (forall|r: usize|
                old(self).slots()[h as int].value.refs().contains(r) ==> r == h || !old(
                self,
            ).is_live(r))) ==> final(self).slots() == old(self).slots().update(
                h as int,
                (SharedHeapAllocation {
                    value: ShareValue::Unit,
                    state: AllocState::Freed,
                    ..old(self).slots()[h as int]
                }),
            ) && final(self).spec_free_space() == old(self).spec_free_space() + old(
                self,
            ).slots()[h as int].size,
            // the no-op behaviour releases exactly the named allocation
            (old(self).is_live(h) && old(self).slots()[h as int].drop_behavior is NoOp) ==> final(self).slots() == old(self).slots().update(
                h as int,
                (SharedHeapAllocation {
                    value: ShareValue::Unit,
                    state: AllocState::Freed,
                    ..old(self).slots()[h as int]
                }),
            ) && final(self).spec_free_space() == old(self).spec_free_space() + old(self).slots()[h as int].size,
    {
        if h >= self.slots.len() {
            return ;
        }
        if !self.slot_is_live(h) {
            return ;
        }
        let ghost root_value = self.slots@[h as int].value;
        let recursive = match self.slots[h].drop_behavior {
            DropBehavior::Recursive => true,
            DropBehavior::NoOp => false,
        };
        let mut worklist: Vec<usize> = Vec::new();
        if recursive {
            let slot_ref = &self.slots[h];
            collect_refs_into(&slot_ref.value, &mut worklist);
        }
        self.release_one(h);
        let ghost freed_root = SharedHeapAllocation {
            value: ShareValue::Unit,
            state: AllocState::Freed,
            ..old(self).slots()[h as int]
        };
        while worklist.len() > 0
            invariant
                old(self).wf(),
                old(self).is_live(h),
                self.wf(),
                self.num_slots() == old(self).num_slots(),
                self.spec_capacity() == old(self).spec_capacity(),
                self.local_domain() == old(self).local_domain(),
                forall|t: u64| self.registered(t) == old(self).registered(t),
                !self.is_live(h),
                forall|i: usize|
                    self.is_live(i) ==> old(self).is_live(i) && self.slots()[i as int] == old(self).slots()[i as int],
                forall|i: usize|
                    old(self).slot_ok(i) && !old(self).is_live(i) ==> self.slots()[i as int]
                        == old(self).slots()[i as int],
                self.spec_free_space() >= old(self).spec_free_space(),
                recursive ==> forall|r: usize|
                    root_value.refs().contains(r) ==> !self.is_live(r) || worklist@.contains(r),
                !recursive ==> worklist@.len() == 0 && self.slots() == old(self).slots().update(
                    h as int,
                    freed_root,
                ) && self.spec_free_space() == old(self).spec_free_space() + old(
                    self,
                ).slots()[h as int].size,
                (recursive && (forall|r: usize|
                    root_value.refs().contains(r) ==> r == h || !old(self).is_live(r))) ==> (
                forall|x: usize| worklist@.contains(x) ==> root_value.refs().contains(x))
                    && self.slots() == old(self).slots().update(h as int, freed_root)
                    && self.spec_free_space() == old(self).spec_free_space() + old(
                    self,
                ).slots()[h as int].size,
            decreases live_count(self.slots()), worklist@.len(),
        {
            let ghost pre_heap = *self;
            let ghost pre_list = worklist@;
            proof {
                lemma_live_sums_nonneg(self.slots@);
            }
            let next = match worklist.pop() {
                Some(n) => n,
                None => {
                    proof {
                        assert(false);
                    }
                    unreached()
                }
            };
            if next < self.slots.len() {
                if self.slot_is_live(next) {
                    let next_recursive = match self.slots[next].drop_behavior {
                        DropBehavior::Recursive => true,
                        DropBehavior::NoOp => false,
                    };
                    if next_recursive {
                        let slot_ref = &self.slots[next];
                        collect_refs_into(&slot_ref.value, &mut worklist);
                    }
                    self.release_one(next);
                }
            }
            proof {
                lemma_live_sums_nonneg(self.slots@);
                if recursive && (forall|r: usize|
                    root_value.refs().contains(r) ==> r == h || !old(self).is_live(r)) {
                    // under this guard every listed handle was already
                    // dead, so this iteration freed nothing and pushed
                    // nothing
                    assert(pre_list.contains(next));
                    assert(root_value.refs().contains(next));
                    assert(worklist@ =~= pre_list.drop_last());
                }
                assert forall|i: usize|
                    self.is_live(i) implies old(self).is_live(i) && self.slots()[i as int]
                    == old(self).slots()[i as int] by {
                    assert(self.slots()[i as int] == pre_heap.slots()[i as int]);
                    assert(pre_heap.is_live(i));
                }
                assert forall|r: usize|
                    recursive && root_value.refs().contains(r) && self.is_live(
                        r,
                    ) implies worklist@.contains(r) by {
                    assert(!pre_heap.is_live(r) || pre_list.contains(r));
                    assert(pre_heap.is_live(r));
                    assert(r != next);
                    let i = choose|i: int| 0 <= i < pre_list.len() && pre_list[i] == r;
                    assert(i < pre_list.len() - 1);
                    assert(pre_list.drop_last()[i] == r);
                    assert(pre_list.drop_last().contains(r));
                }
            }
        }
    }

    /// Reclaim pass over the shared heap for one domain: free every
    /// allocation still tagged to `domain_id`, or, under
    /// [`FreeShared::NotFree`], keep them all alive and retag them to
    /// the successor domain.  A domain that owns nothing reclaims as a
    /// no-op.
    pub fn free_domain_shared_data(&mut self, domain_id: u64, policy: FreeShared)
        requires
            old(self).wf(),
        ensures
            final(self).wf(),
            final(self).num_slots() == old(self).num_slots(),
            final(self).spec_capacity() == old(self).spec_capacity(),
            final(self).local_domain() == old(self).local_domain(),
            forall|t: u64| final(self).registered(t) == old(self).registered(t),
            // no allocation is left tagged to the reclaimed domain
            forall|i: usize|
                old(self).is_live(i) && old(self).owner_of(i) == domain_id ==> match policy {
                    FreeShared::Free => !final(self).is_live(i),
                    FreeShared::NotFree(new_id) => final(self).is_live(i) && final(self).owner_of(
                        i,
                    ) == new_id,
                },
            // allocations the domain did not own survive untouched, and
            // under the forwarding policy nothing is freed at all
            match policy {
                FreeShared::Free => forall|i: usize|
                    final(self).is_live(i) ==> old(self).is_live(i) && final(self).slots()[i as int] == old(self).slots()[i as int],
                FreeShared::NotFree(new_id) => forall|i: usize|
                    old(self).slot_ok(i) ==> final(self).is_live(i) == old(self).is_live(i) && (!(
                    old(self).is_live(i) && old(self).owner_of(i) == domain_id) ==> final(self).slots()[i as int] == old(self).slots()[i as int]) && ((old(self).is_live(i)
                        && old(self).owner_of(i) == domain_id) ==> final(self).slots()[i as int]
                        == (SharedHeapAllocation {
                        domain_id: new_id,
                        ..old(self).slots()[i as int]
                    })),
            },
            forall|i: usize|
                old(self).slot_ok(i) && !old(self).is_live(i) ==> final(self).slots()[i as int]
                    == old(self).slots()[i as int],
            // a domain with no live allocations reclaims as a no-op
            (forall|i: usize| !(old(self).is_live(i) && old(self).owner_of(i) == domain_id))
                ==> *final(self) == *old(self),
    {
        let n = self.slots.len();
        let mut i: usize = 0;
        while i < n
            invariant
                self.wf(),
                n == self.num_slots(),
                i <= n,
                self.num_slots() == old(self).num_slots(),
                self.spec_capacity() == old(self).spec_capacity(),
                self.local_domain() == old(self).local_domain(),
                forall|t: u64| self.registered(t) == old(self).registered(t),
                forall|j: usize|
                    old(self).is_live(j) && old(self).owner_of(j) == domain_id && j < i
                        ==> match policy {
                        FreeShared::Free => !self.is_live(j),
                        FreeShared::NotFree(new_id) => self.is_live(j) && self.owner_of(j)
                            == new_id,
                    },
                match policy {
                    FreeShared::Free => forall|j: usize|
                        self.is_live(j) ==> old(self).is_live(j) && self.slots()[j as int] == old(self).slots()[j as int],
                    FreeShared::NotFree(new_id) => forall|j: usize|
                        old(self).slot_ok(j) ==> self.is_live(j) == old(self).is_live(j) && (!(
                        old(self).is_live(j) && old(self).owner_of(j) == domain_id && j < i)
                            ==> self.slots()[j as int] == old(self).slots()[j as int]) && ((old(self).is_live(j) && old(self).owner_of(j) == domain_id && j < i)
                            ==> self.slots()[j as int] == (SharedHeapAllocation {
                            domain_id: new_id,
                            ..old(self).slots()[j as int]
                        })),
                },
                forall|j: usize|
                    old(self).slot_ok(j) && !old(self).is_live(j) ==> self.slots()[j as int]
                        == old(self).slots()[j as int],
                (forall|j: usize| !(old(self).is_live(j) && old(self).owner_of(j) == domain_id))
                    ==> *self == *old(self),
            decreases n - i,
        {
            let live = self.slot_is_live(i);
            if live && self.slots[i].domain_id == domain_id {
                match policy {
                    FreeShared::Free => {
                        self.drop_domain_share_data(i);
                    }
                    FreeShared::NotFree(new_id) => {
                        let _old_owner = self.move_to(i, new_id);
                    }
                }
            }
            i += 1;
        }
    }
}

} // verus!
