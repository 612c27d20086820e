use domain_core::rref::{CustomDrop, RRef, RRefVec, TypeIdentifiable};
use domain_core::shared_heap::{DropBehavior, FreeShared, ShareValue, SharedHeap};
use domain_core::AlienError;

#[test]
fn move_to_transfers_ownership() {
    let mut heap = SharedHeap::init(4096, 1);
    let r = RRef::new(&mut heap, ShareValue::Word(7), 8).unwrap();
    assert_eq!(r.domain_id(&heap), 1);
    let old = r.move_to(&mut heap, 2);
    assert_eq!(old, 1);
    assert_eq!(r.domain_id(&heap), 2);
    assert_eq!(heap.allocation_domain_id(r.slot), 2);
}

#[test]
fn vec_move_to_transfers_ownership() {
    let mut heap = SharedHeap::init(4096, 9);
    let mut v = RRefVec::new(&mut heap, 0xab, 16).unwrap();
    assert_eq!(v.domain_id(&heap), 9);
    let old = v.move_to(&mut heap, 3);
    assert_eq!(old, 9);
    assert_eq!(v.domain_id(&heap), 3);
}

#[test]
fn drop_runs_destructor_exactly_once() {
    let mut heap = SharedHeap::init(4096, 1);
    let child = RRef::new(&mut heap, ShareValue::Word(1), 8).unwrap();
    let parent = RRef::new(
        &mut heap,
        ShareValue::Pair(
            Box::new(ShareValue::Ref(child.slot)),
            Box::new(ShareValue::Word(2)),
        ),
        16,
    )
    .unwrap();
    let free_before = heap.free_space();
    let parent_slot = parent.slot;
    let child_slot = child.slot;

    // generic recursive path: destroying the parent releases the child
    parent.custom_drop(&mut heap);
    assert!(!heap.slot_is_live(parent_slot));
    assert!(!heap.slot_is_live(child_slot));
    let free_after = heap.free_space();
    assert_eq!(free_after, free_before + 16 + 8);

    // the registry path on the already-destroyed allocation is a no-op:
    // the destructor does not run a second time
    heap.drop_domain_share_data(child_slot);
    heap.drop_domain_share_data(parent_slot);
    assert_eq!(heap.free_space(), free_after);

    // a reclaim pass afterwards does not touch them either
    heap.free_domain_shared_data(1, FreeShared::Free);
    assert_eq!(heap.free_space(), free_after);
    assert!(!heap.slot_is_live(parent_slot));
}

#[test]
fn noop_drop_leaves_nested_handles_alone() {
    let mut heap = SharedHeap::init(4096, 1);
    let child = RRef::new(&mut heap, ShareValue::Word(5), 8).unwrap();
    // a type that registers no destruction logic gets the default no-op
    let holder = heap
        .allocate(ShareValue::Ref(child.slot), 8, 77)
        .unwrap();
    assert_eq!(heap.lookup_registered(77), Some(DropBehavior::NoOp));
    heap.drop_domain_share_data(holder);
    assert!(!heap.slot_is_live(holder));
    // the nested handle leaked past the no-op destructor and is only
    // recovered by a reclaim pass
    assert!(heap.slot_is_live(child.slot));
}

#[test]
fn allocation_fails_when_heap_exhausted() {
    let mut heap = SharedHeap::init(8, 1);
    let r = RRefVec::new(&mut heap, 0, 16);
    assert!(matches!(r, Err(AlienError::AllocationFailed)));
    // the failed allocation changed nothing
    assert_eq!(heap.free_space(), 8);
    assert_eq!(heap.num_allocations(), 0);
}

#[test]
fn borrowed_vec_never_touches_the_heap() {
    let heap = SharedHeap::init(4096, 4);
    let buf: Vec<u8> = vec![1, 2, 3];
    let mut v = RRefVec::from_other_rvec_slice(&heap, buf.as_slice());
    assert!(v.borrowed());
    assert_eq!(v.len(), 3);
    assert_eq!(v.as_slice(&heap), &[1, 2, 3]);
    assert_eq!(v.domain_id(&heap), 4);

    let mut heap = heap;
    // the transfer rewrites only the private owner cell
    let old = v.move_to(&mut heap, 8);
    assert_eq!(old, 4);
    assert_eq!(v.domain_id(&heap), 8);
    assert_eq!(heap.num_allocations(), 0);

    // destruction releases only the cell, not the borrowed memory
    v.custom_drop(&mut heap);
    assert_eq!(heap.num_allocations(), 0);
    assert_eq!(buf, vec![1, 2, 3]);
}

#[test]
fn empty_shared_array_is_valid() {
    let mut heap = SharedHeap::init(4096, 1);
    let v = RRefVec::new(&mut heap, 0, 0).unwrap();
    assert!(v.is_empty());
    assert_eq!(v.len(), 0);
    assert_eq!(v.as_slice(&heap), &[] as &[u8]);
}

#[test]
fn from_slice_copies_and_registers() {
    let mut heap = SharedHeap::init(4096, 1);
    let v = RRefVec::from_slice(&mut heap, &[9, 8, 7]).unwrap();
    assert!(!v.borrowed());
    assert_eq!(v.size(), 3);
    assert!(!v.is_empty());
    assert_eq!(v.as_slice(&heap), &[9, 8, 7]);
    let type_id = ShareValue::Bytes(Vec::new()).type_id();
    assert_eq!(heap.lookup_registered(type_id), Some(DropBehavior::Recursive));
}

#[test]
fn forwarding_reclaim_retags_allocations() {
    let mut heap = SharedHeap::init(4096, 1);
    let a = RRef::new(&mut heap, ShareValue::Word(11), 8).unwrap();
    let b = RRef::new(&mut heap, ShareValue::Word(22), 8).unwrap();
    let _ = b.move_to(&mut heap, 5);
    heap.free_domain_shared_data(1, FreeShared::NotFree(2));
    // the old domain's allocation survives, owned by the successor
    assert!(heap.slot_is_live(a.slot));
    assert_eq!(heap.allocation_domain_id(a.slot), 2);
    // another domain's allocation is untouched
    assert!(heap.slot_is_live(b.slot));
    assert_eq!(heap.allocation_domain_id(b.slot), 5);
}

#[test]
fn freeing_reclaim_releases_allocations() {
    let mut heap = SharedHeap::init(4096, 7);
    let a = RRef::new(&mut heap, ShareValue::Word(1), 8).unwrap();
    let b = RRef::new(&mut heap, ShareValue::Word(2), 8).unwrap();
    let _ = b.move_to(&mut heap, 8);
    heap.free_domain_shared_data(7, FreeShared::Free);
    assert!(!heap.slot_is_live(a.slot));
    assert!(heap.slot_is_live(b.slot));
}
