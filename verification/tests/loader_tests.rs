use domain_core::frame::{FrameTracker, PagePool, FRAME_SIZE};
use domain_core::loader::{
    find_text_section, image_region_size, is_elf_magic, plan_segments, relocation_entries,
    ProgramSegment, RelaEntry,
};
use domain_core::AlienError;

fn seg(vaddr: usize, mem_size: usize, executable: bool) -> ProgramSegment {
    ProgramSegment {
        vaddr,
        mem_size,
        file_offset: 0,
        file_size: mem_size,
        readable: true,
        writable: !executable,
        executable,
    }
}

#[test]
fn elf_magic_is_recognised() {
    assert!(is_elf_magic(&[0x7f, b'E', b'L', b'F', 0, 0]));
    assert!(!is_elf_magic(&[0x7f, b'E', b'L']));
    assert!(!is_elf_magic(&[0x7f, b'E', b'L', b'G']));
}

#[test]
fn region_size_rounds_up_to_a_frame() {
    let segments = vec![seg(0, 0x800, false), seg(0x1000, 0x234, true)];
    assert_eq!(image_region_size(&segments), Ok(0x2000));
    // an exactly-aligned end is kept as is
    let aligned = vec![seg(0x1000, 0x1000, true)];
    assert_eq!(image_region_size(&aligned), Ok(0x2000));
}

#[test]
fn region_size_rejects_overflowing_images() {
    let segments = vec![seg(usize::MAX - 2, 4, false)];
    assert_eq!(image_region_size(&segments), Err(AlienError::InvalidArgument));
    // a segment ending exactly one frame short of the top has no room
    // for the rounding and is rejected, not rounded
    let boundary = vec![seg(usize::MAX - 5095, 1000, false)];
    assert_eq!(image_region_size(&boundary), Err(AlienError::InvalidArgument));
    let plans = plan_segments(&boundary, 0);
    assert_eq!(plans, Err(AlienError::InvalidArgument));
}

#[test]
fn segments_map_to_whole_frames() {
    let segments = vec![seg(0x123, 0x100, true)];
    let plans = plan_segments(&segments, 0x10000).unwrap();
    assert_eq!(plans.len(), 1);
    assert_eq!(plans[0].map_start, 0x10000);
    assert_eq!(plans[0].map_end, 0x11000);
    assert_eq!(plans[0].copy_start, 0x123);
    assert_eq!(plans[0].copy_len, 0x100);
    assert!(plans[0].executable);
}

#[test]
fn text_section_is_the_last_executable_mapping() {
    let segments = vec![seg(0x0, 0x1000, true), seg(0x2000, 0x800, false)];
    let plans = plan_segments(&segments, 0x40000).unwrap();
    assert_eq!(find_text_section(&plans), Some((0x40000, 0x41000)));
    let none = plan_segments(&vec![seg(0, 0x100, false)], 0).unwrap();
    assert_eq!(find_text_section(&none), None);
}

#[test]
fn relative_relocations_are_rebased() {
    let entries = vec![
        RelaEntry { offset: 8, addend: 0x20, rtype: 8 },
        RelaEntry { offset: 0x40, addend: 0x1000, rtype: 8 },
    ];
    let patched = relocation_entries(&entries, 0x1000, 8).unwrap();
    assert_eq!(patched, vec![(0x1008, 0x1020), (0x1040, 0x2000)]);
}

#[test]
fn relocations_reject_overflow() {
    let entries = vec![RelaEntry { offset: usize::MAX, addend: 0, rtype: 3 }];
    assert_eq!(
        relocation_entries(&entries, 0x1000, 3),
        Err(AlienError::InvalidArgument)
    );
}

#[test]
fn frame_tracker_allocates_and_releases() {
    let mut pool = PagePool::new(64);
    let t = FrameTracker::new(&mut pool, 4, 1).unwrap();
    assert_eq!(t.ptr, 0);
    assert_eq!(t.size(), 4 * FRAME_SIZE);
    assert_eq!(t.end(), 4 * FRAME_SIZE);
    assert!(t.dealloc);
    let t2 = FrameTracker::new(&mut pool, 2, 1).unwrap();
    assert_eq!(t2.ptr, 4 * FRAME_SIZE);
    t.release(&mut pool);
    t2.release(&mut pool);
    // the pool cannot hand out more than it has
    let too_big = FrameTracker::new(&mut pool, 100, 1);
    assert!(matches!(too_big, Err(AlienError::AllocationFailed)));
}

#[test]
fn borrowed_frame_ranges_are_never_deallocated() {
    let trampoline = FrameTracker::create_trampoline(0x8000_0000);
    assert_eq!(trampoline.page_count, 1);
    assert!(!trampoline.dealloc);

    let range = FrameTracker::from_phy_range(0x1000, 0x4000);
    assert_eq!(range.page_count, 3);
    assert_eq!(range.size(), 0x3000);
    assert!(!range.dealloc);

    let mut pool = PagePool::new(16);
    range.release(&mut pool);
    // nothing was given back: the tracker did not own the frames
    let t = FrameTracker::new(&mut pool, 1, 1).unwrap();
    assert_eq!(t.ptr, 0);
}
