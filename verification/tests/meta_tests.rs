use domain_core::arch::CpuLocal;
use domain_core::continuation::{Continuation, ContinuationStack};
use domain_core::domain_info::{DomainFileInfo, DomainInfo};
use domain_core::interface::{
    check_domain_identifier, DeviceId, DomainTypeRaw, PlicInfo, PlicType, TmpHeapInfo, Which,
};
use domain_core::storage::{
    get_or_insert, get_or_insert_in, init_data_allocator, init_database, DomainDataStorage,
    StorageArg,
};
use domain_core::task_meta::{
    OperationResult, TaskBasicInfo, TaskContext, TaskMeta, TaskSchedulingInfo, TaskStatus,
};
use domain_core::AlienError;

#[test]
fn task_context_holds_its_registers() {
    let mut ctx = TaskContext::new(0x100, 0x200);
    assert_eq!(ctx.ra(), 0x100);
    assert_eq!(ctx.sp(), 0x200);
    ctx.set_sp(0x300);
    assert_eq!(ctx.sp(), 0x300);
    let empty = TaskContext::empty();
    assert_eq!(empty.ra(), 0);
    assert_eq!(empty.sp(), 0);
}

#[test]
fn task_meta_composes_its_parts() {
    let basic = TaskBasicInfo::new(17, TaskContext::empty());
    assert_eq!(basic.tid(), 17);
    assert_eq!(basic.status(), TaskStatus::Ready);
    let sched = TaskSchedulingInfo::new(17, 3, 0b11);
    let meta = TaskMeta::new(basic, sched);
    assert_eq!(meta.basic_info().tid(), 17);
    assert_eq!(meta.scheduling_info().priority, 3);

    let mut basic = basic;
    basic.set_status(TaskStatus::Running);
    assert_eq!(basic.status(), TaskStatus::Running);
    basic.task_context().set_sp(0x42);
    assert_eq!(basic.context.sp, 0x42);
}

#[test]
fn operation_results_unwrap_their_variant() {
    assert_eq!(OperationResult::Current(Some(3)).current_tid(), Some(3));
    assert_eq!(OperationResult::KstackTop(0x9000).kstack_top(), 0x9000);
    assert!(OperationResult::ExitOver(true).is_exit_over());
}

#[test]
fn continuations_pop_in_lifo_order() {
    let mut stack = ContinuationStack::new();
    assert_eq!(stack.pop_continuation().map(|c| c.func), None);
    stack.register_cont(Continuation::new([0; 32], 0xa));
    stack.register_cont(Continuation::new([0; 32], 0xb));
    assert_eq!(stack.len(), 2);
    assert_eq!(stack.pop_continuation().map(|c| c.func), Some(0xb));
    assert_eq!(stack.pop_continuation().map(|c| c.func), Some(0xa));
    assert_eq!(stack.len(), 0);
}

#[test]
fn device_ids_pack_and_unpack() {
    let id = DeviceId::new(0xab, 0xcdef);
    assert_eq!(id.id(), (0xab_u64 << 32) | 0xcdef);
    let back = DeviceId::from_id(id.id());
    assert_eq!(back, id);
    assert_eq!(back.major(), 0xab);
    assert_eq!(back.minor(), 0xcdef);
}

#[test]
fn domain_type_codes_decode() {
    assert_eq!(DomainTypeRaw::try_from(4), Ok(DomainTypeRaw::RtcDomain));
    assert_eq!(DomainTypeRaw::try_from(20), Ok(DomainTypeRaw::NetDomain));
    assert_eq!(DomainTypeRaw::try_from(0), Err(()));
    assert_eq!(DomainTypeRaw::try_from(21), Err(()));
}

#[test]
fn short_domain_identifiers_are_rejected() {
    assert_eq!(check_domain_identifier(&[0u8; 32]), Ok(()));
    assert_eq!(check_domain_identifier(&[0u8; 40]), Ok(()));
    assert_eq!(
        check_domain_identifier(&[0u8; 31]),
        Err(AlienError::InvalidArgument)
    );
    assert_eq!(check_domain_identifier(&[]), Err(AlienError::InvalidArgument));
}

#[test]
fn which_selector_decodes() {
    assert_eq!(Which::try_from(0), Ok(Which::PRIO_PROCESS));
    assert_eq!(Which::try_from(2), Ok(Which::PRIO_USER));
    assert_eq!(Which::try_from(3), Err(AlienError::InvalidArgument));
    assert_eq!(Which::try_from(-1), Err(AlienError::InvalidArgument));
}

#[test]
fn cpu_local_values_are_private_to_their_context() {
    let mut cell = CpuLocal::new(5_u64);
    assert_eq!(*cell.get(), 5);
    *cell.as_mut() = 9;
    assert_eq!(*cell.get(), 9);
}

#[test]
fn domain_info_starts_empty() {
    let info = DomainInfo::new();
    assert!(info.ty_list.is_empty());
    assert!(info.domain_list.is_empty());
    let file = DomainFileInfo::from(("fatfs".to_string(), 0x8000));
    assert_eq!(file.name, "fatfs");
    assert_eq!(file.size, 0x8000);
    let plic = PlicInfo { device_start: 0xc00_0000, device_end: 0xc60_0000, ty: PlicType::Qemu };
    assert_eq!(plic.device_start, 0xc00_0000);
    let heap_info = TmpHeapInfo::new(0x1000, 0x1800);
    assert_eq!(heap_info.current, 0x1800);
}

#[test]
fn storage_keeps_values_across_a_swap() {
    let mut db = init_database();
    assert_eq!(db.get("inode_cache"), None);
    // the first domain instance persists a handle
    assert_eq!(get_or_insert(&mut db, "inode_cache", 0x77), 0x77);
    // after the hot swap, the successor finds it again
    assert_eq!(get_or_insert(&mut db, "inode_cache", 0x99), 0x77);
    assert_eq!(get_or_insert_in(&mut db, "sb_data", 0x55), 0x55);
    assert_eq!(db.get("sb_data"), Some(0x55));
    // an insert reports the value it displaced
    assert_eq!(db.insert("sb_data", 0x56), Some(0x55));
    assert_eq!(db.remove("sb_data"), Some(0x56));
    assert_eq!(db.remove("sb_data"), None);
}

#[test]
fn storage_allocator_accounts_its_bytes() {
    let mut alloc = init_data_allocator(64);
    assert_eq!(alloc.allocate(40), Ok(0));
    assert_eq!(alloc.allocate(24), Ok(40));
    assert_eq!(alloc.allocate(1), Err(AlienError::AllocationFailed));
    alloc.deallocate(24);
    assert_eq!(alloc.allocate(8), Ok(40));
    let arg = StorageArg::new(alloc, init_database());
    assert_eq!(arg.allocator.capacity, 64);
}
