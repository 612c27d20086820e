use domain_core::continuation::ContinuationStack;
use domain_core::domain_info::DomainFileInfo;
use domain_core::interface::Basic;
use domain_core::proxy::{
    activate_domain, DomainImpl, Proxy, ReplaceProgress,
};
use domain_core::resource::{register_domain_resource, DomainResource};
use domain_core::rref::RRefVec;
use domain_core::shared_heap::{FreeShared, ShareValue, SharedHeap};
use domain_core::AlienError;

fn loader_info(name: &str) -> DomainFileInfo {
    DomainFileInfo::new(name.to_string(), 0x1000)
}

fn live_domain(id: u64) -> DomainImpl {
    let mut d = DomainImpl::new(id);
    activate_domain(&mut d);
    d
}

#[test]
fn empty_proxy_fails_every_call_except_init() {
    let mut heap = SharedHeap::init(4096, 1);
    let mut proxy = Proxy::build_empty(loader_info("empty_loader"), 2);
    assert!(!proxy.is_active());
    assert_eq!(proxy.domain_id(), u64::MAX);
    assert_eq!(proxy.init(), Ok(()));
    let data = RRefVec::new(&mut heap, 0, 4).unwrap();
    // the checked path fails on the liveness check
    assert_eq!(proxy.write(0, &data), Err(AlienError::DomainCrashed));
    // the no-check path reaches the placeholder, which rejects the call
    assert_eq!(proxy.write_no_check(0, &data), Err(AlienError::Unsupported));
    assert_eq!(proxy.handle_irq(1), Err(AlienError::DomainCrashed));
}

#[test]
fn write_dispatches_to_live_domain() {
    let mut heap = SharedHeap::init(4096, 1);
    let mut proxy = Proxy::new(live_domain(7), loader_info("blk"), 2);
    let data = RRefVec::new(&mut heap, 0xaa, 6).unwrap();
    assert_eq!(proxy.write(0, &data), Ok(6));
    assert_eq!(proxy.all_counter(), 0);
    assert_eq!(proxy.handle_irq(0), Ok(()));
}

#[test]
fn read_moves_ownership_across_the_boundary_and_back() {
    let mut heap = SharedHeap::init(4096, 1);
    let mut conts = ContinuationStack::new();
    let mut proxy = Proxy::new(live_domain(7), loader_info("blk"), 2);
    let data = RRefVec::from_slice(&mut heap, &[1, 2, 3, 4]).unwrap();
    assert_eq!(data.domain_id(&heap), 1);
    let out = proxy.read(0, data, &mut heap, &mut conts).unwrap();
    // the buffer came back, still owned by the caller's domain
    assert_eq!(out.domain_id(&heap), 1);
    assert_eq!(out.as_slice(&heap), &[1, 2, 3, 4]);
    assert_eq!(conts.len(), 0);
}

#[test]
fn crash_containment_returns_error_and_kills_liveness() {
    let mut heap = SharedHeap::init(4096, 1);
    let mut conts = ContinuationStack::new();
    let mut faulty = DomainImpl::new_faulty(9);
    activate_domain(&mut faulty);
    let mut proxy = Proxy::new(faulty, loader_info("gpu"), 2);
    assert!(proxy.is_active());

    let data = RRefVec::from_slice(&mut heap, &[5, 6]).unwrap();
    let slot = 0;
    // the buffer moves to the callee and is lost with it
    let r = proxy.read(0, data, &mut heap, &mut conts);
    assert_eq!(r.err(), Some(AlienError::DomainCrashed));
    // the caught panic left no dangling continuation
    assert_eq!(conts.len(), 0);
    // the domain is permanently inactive: the liveness check now fails
    // every further call fast
    assert!(!proxy.is_active());
    assert_eq!(proxy.handle_irq(0), Err(AlienError::DomainCrashed));
    // the buffer's allocation is tagged to the crashed callee until a
    // reclaim pass recovers it
    assert_eq!(heap.allocation_domain_id(slot), 9);
}

#[test]
fn replace_waits_for_quiescence_then_swaps() {
    // Proxy P wraps domain A; three fast-path calls are in flight, a
    // concurrent replace must wait for all of them, then installs B.
    let mut heap = SharedHeap::init(4096, 1);
    let mut res = DomainResource::new();
    let mut proxy = Proxy::new(live_domain(1), loader_info("task_a"), 4);
    let data = RRefVec::new(&mut heap, 1, 8).unwrap();

    assert_eq!(proxy.fast_call_enter(0), Ok(()));
    assert_eq!(proxy.fast_call_enter(1), Ok(()));
    assert_eq!(proxy.fast_call_enter(2), Ok(()));
    assert_eq!(proxy.all_counter(), 3);

    proxy.replace_begin(live_domain(2), loader_info("task_b"));
    // the replacer spins: the counters have not drained
    assert!(matches!(
        proxy.replace_try_finish(&mut res, &mut heap, FreeShared::NotFree(2)),
        ReplaceProgress::WaitingForCalls
    ));
    // the old implementation still serves calls (slow path)
    assert_eq!(proxy.domain_id(), 1);
    assert_eq!(proxy.write(3, &data), Ok(8));

    // the three in-flight calls complete and drain the counters
    proxy.fast_call_exit(0);
    proxy.fast_call_exit(1);
    proxy.fast_call_exit(2);
    assert_eq!(proxy.all_counter(), 0);

    // now the swap proceeds
    match proxy.replace_try_finish(&mut res, &mut heap, FreeShared::NotFree(2)) {
        ReplaceProgress::Done(freed) => assert_eq!(freed, Vec::new()),
        ReplaceProgress::WaitingForCalls => panic!("counters were drained"),
    }
    // the next call is served by B
    assert_eq!(proxy.domain_id(), 2);
    assert_eq!(proxy.write(0, &data), Ok(8));
}

#[test]
fn replace_hands_resources_to_the_successor() {
    let mut heap = SharedHeap::init(4096, 1);
    let mut res = DomainResource::new();
    let mut proxy = Proxy::new(live_domain(1), loader_info("fs_a"), 2);

    // domain 1 owns a shared allocation, a page range, and private state
    let kept = domain_core::rref::RRef::new(&mut heap, ShareValue::Word(7), 8).unwrap();
    res.insert_page_map(1, (0x80, 4));
    register_domain_resource(&mut res, 1, 0xbeef);
    assert!(res.has_resources(1));

    let freed = proxy.replace(
        live_domain(2),
        loader_info("fs_b"),
        &mut res,
        &mut heap,
        FreeShared::NotFree(2),
    );
    // the pages come back for the page allocator, the private state and
    // the page entry are gone
    assert_eq!(freed, vec![(0x80, 4)]);
    assert!(!res.has_resources(1));
    // the forwarded allocation is still valid and now owned by B
    assert!(heap.slot_is_live(kept.slot));
    assert_eq!(heap.allocation_domain_id(kept.slot), 2);
    assert_eq!(proxy.domain_id(), 2);
}

#[test]
fn reclaim_is_idempotent_on_an_empty_domain() {
    let mut heap = SharedHeap::init(4096, 1);
    let mut res = DomainResource::new();
    let freed = domain_core::resource::free_domain_resource(
        &mut res,
        &mut heap,
        42,
        FreeShared::Free,
    );
    assert!(freed.is_empty());
    assert_eq!(heap.num_allocations(), 0);
    let freed_again = domain_core::resource::free_domain_resource(
        &mut res,
        &mut heap,
        42,
        FreeShared::Free,
    );
    assert!(freed_again.is_empty());
    assert!(!res.has_resources(42));
}

#[test]
fn crashed_call_counts_back_out() {
    let mut proxy = Proxy::new(DomainImpl::new(3), loader_info("net"), 2);
    // the domain never activated: the fast path fails the liveness
    // check and the counter returns to zero
    assert_eq!(proxy.fast_call_enter(0), Err(AlienError::DomainCrashed));
    assert_eq!(proxy.all_counter(), 0);
}
