//! Physical frames: a model of the kernel's page service and the
//! tracker a domain holds over a range of frames.  A tracker that
//! allocated its frames gives them back on release; trackers over the
//! trampoline page or an externally-owned physical range never do.

use vstd::prelude::*;
use crate::AlienError;

verus! {

/// Size of one physical frame in bytes.
pub const FRAME_SIZE: usize = 4096;

/// log2 of [`FRAME_SIZE`].
pub const FRAME_BITS: usize = 12;

/// A model of the kernel page service behind the core-function table:
/// frames are handed out bump-wise from a fixed pool, and every range
/// given back is recorded.
#[derive(Debug)]
pub struct PagePool {
    total_pages: usize,
    next_page: usize,
    freed: Vec<(usize, usize)>,
}

impl PagePool {
    /// Pages handed out so far.
    pub closed spec fn spec_next_page(self) -> usize {
        self.next_page
    }

    pub closed spec fn spec_total_pages(self) -> usize {
        self.total_pages
    }

    /// The log of `(start_addr, page_count)` ranges given back.
    pub closed spec fn freed_log(self) -> Seq<(usize, usize)> {
        self.freed@
    }

    /// The pool's addresses stay within the machine word.
    pub closed spec fn wf(self) -> bool {
        &&& self.total_pages <= usize::MAX / FRAME_SIZE
        &&& self.next_page <= self.total_pages
    }

    pub fn new(total_pages: usize) -> (r: PagePool)
        requires
            total_pages <= usize::MAX / 4096,
        ensures
            r.wf(),
            r.spec_total_pages() == total_pages,
            r.spec_next_page() == 0,
            r.freed_log() == Seq::<(usize, usize)>::empty(),
    {
        PagePool { total_pages, next_page: 0, freed: Vec::new() }
    }

    /// Hand out `n` fresh pages; returns the start address.  Fails
    /// exactly when the pool has fewer than `n` pages left.
    pub fn alloc_raw_pages(&mut self, n: usize, domain_id: u64) -> (r: Result<usize, AlienError>)
        requires
            old(self).wf(),
        ensures
            final(self).wf(),
            final(self).spec_total_pages() == old(self).spec_total_pages(),
            final(self).freed_log() == old(self).freed_log(),
            n <= old(self).spec_total_pages() - old(self).spec_next_page() ==> {
                &&& r == Ok::<usize, AlienError>(
                    (old(self).spec_next_page() * 4096) as usize,
                )
                &&& final(self).spec_next_page() == old(self).spec_next_page() + n
            },
            n > old(self).spec_total_pages() - old(self).spec_next_page() ==> r == Err::<
                usize,
                AlienError,
            >(AlienError::AllocationFailed) && *final(self) == *old(self),
    {
        let _ = domain_id;
        if n <= self.total_pages - self.next_page {
            proof {
                assert(self.next_page * 4096 <= usize::MAX) by (nonlinear_arith)
                    requires
                        self.next_page <= usize::MAX / 4096,
                ;
            }
            let start = self.next_page * FRAME_SIZE;
            self.next_page = self.next_page + n;
            Ok(start)
        } else {
            Err(AlienError::AllocationFailed)
        }
    }

    /// Record a range of pages given back to the pool.
    pub fn free_raw_pages(&mut self, addr: usize, n: usize, domain_id: u64)
        requires
            old(self).wf(),
        ensures
            final(self).wf(),
            final(self).spec_total_pages() == old(self).spec_total_pages(),
            final(self).spec_next_page() == old(self).spec_next_page(),
            final(self).freed_log() == old(self).freed_log().push((addr, n)),
    {
        let _ = domain_id;
        self.freed.push((addr, n));
    }
}

/// A sink for freed frames: whatever can take page ranges back.  Every
/// range handed in is recorded, in order.
pub trait FreeFrame {
    spec fn sink_req(self) -> bool;

    /// The ranges this sink has accepted so far.
    spec fn accepted(self) -> Seq<(usize, usize)>;

    fn free_frame(&mut self, addr: usize, num: usize)
        requires
            old(self).sink_req(),
        ensures
            final(self).sink_req(),
            final(self).accepted() == old(self).accepted().push((addr, num)),
    ;
}

impl FreeFrame for PagePool {
    open spec fn sink_req(self) -> bool {
        self.wf()
    }

    open spec fn accepted(self) -> Seq<(usize, usize)> {
        self.freed_log()
    }

    fn free_frame(&mut self, addr: usize, num: usize) {
        self.free_raw_pages(addr, num, 0);
    }
}

/// A tracked range of physical frames: the start address, the number of
/// frames, and whether release should give them back to the pool.
#[derive(Debug, Clone, Copy, PartialEq, Eq, Structural)]
pub struct FrameTracker {
    pub ptr: usize,
    pub page_count: usize,
    pub dealloc: bool,
}

impl FrameTracker {
    /// The range stays within the machine word.
    pub open spec fn wf(self) -> bool {
        self.ptr + self.page_count * 4096 <= usize::MAX
    }

    pub open spec fn spec_size(self) -> int {
        self.page_count * 4096
    }

    /// Allocate `page_count` fresh frames from the pool.
    pub fn new(pool: &mut PagePool, page_count: usize, domain_id: u64) -> (r: Result<
        FrameTracker,
        AlienError,
    >)
        requires
            old(pool).wf(),
        ensures
            final(pool).wf(),
            final(pool).spec_total_pages() == old(pool).spec_total_pages(),
            final(pool).freed_log() == old(pool).freed_log(),
            page_count <= old(pool).spec_total_pages() - old(pool).spec_next_page() ==> {
                &&& r is Ok
                &&& r->Ok_0.wf()
                &&& r->Ok_0.ptr == old(pool).spec_next_page() * 4096
                &&& r->Ok_0.page_count == page_count
                &&& r->Ok_0.dealloc
            },
            page_count > old(pool).spec_total_pages() - old(pool).spec_next_page() ==> r == Err::<
                FrameTracker,
                AlienError,
            >(AlienError::AllocationFailed) && *final(pool) == *old(pool),
    {
        match pool.alloc_raw_pages(page_count, domain_id) {
            Ok(ptr) => {
                proof {
                    let base = old(pool).spec_next_page() as int;
                    assert(base + page_count <= usize::MAX / 4096);
                    assert(base * 4096 + page_count * 4096 <= usize::MAX) by (nonlinear_arith)
                        requires
                            base + page_count <= usize::MAX / 4096,
                            base >= 0,
                            page_count >= 0,
                    ;
                }
                Ok(FrameTracker { ptr, page_count, dealloc: true })
            }
            Err(e) => Err(e),
        }
    }

    /// View the trampoline page; never deallocated.
    pub fn create_trampoline(trampoline_phy_addr: usize) -> (r: FrameTracker)
        requires
            trampoline_phy_addr + 4096 <= usize::MAX,
        ensures
            r.wf(),
            r.ptr == trampoline_phy_addr,
            r.page_count == 1,
            !r.dealloc,
    {
        FrameTracker { ptr: trampoline_phy_addr, page_count: 1, dealloc: false }
    }

    /// View an externally-owned physical range; both ends must be
    /// frame-aligned, and the range is never deallocated.
    pub fn from_phy_range(start: usize, end: usize) -> (r: FrameTracker)
        requires
            start % 4096 == 0,
            end % 4096 == 0,
            start <= end,
        ensures
            r.wf(),
            r.ptr == start,
            r.page_count == (end - start) / 4096,
            !r.dealloc,
            r.spec_size() == end - start,
    {
        proof {
            assert((end - start) % 4096 == 0) by (nonlinear_arith)
                requires
                    start % 4096 == 0,
                    end % 4096 == 0,
                    start <= end,
            ;
            assert(((end - start) / 4096) * 4096 == end - start) by (nonlinear_arith)
                requires
                    (end - start) % 4096 == 0,
                    end >= start,
            ;
        }
        FrameTracker { ptr: start, page_count: (end - start) / FRAME_SIZE, dealloc: false }
    }

    /// The range's end address.
    pub fn end(&self) -> (r: usize)
        requires
            self.wf(),
        ensures
            r == self.ptr + self.spec_size(),
    {
        self.ptr + self.size()
    }

    /// The range's length in bytes.
    pub fn size(&self) -> (r: usize)
        requires
            self.wf(),
        ensures
            r == self.spec_size(),
    {
        self.page_count * FRAME_SIZE
    }

    /// Give the frames back to the pool, if this tracker allocated
    /// them.
    pub fn release(self, pool: &mut PagePool)
        requires
            old(pool).wf(),
        ensures
            final(pool).wf(),
            final(pool).spec_total_pages() == old(pool).spec_total_pages(),
            final(pool).spec_next_page() == old(pool).spec_next_page(),
            self.dealloc ==> final(pool).freed_log() == old(pool).freed_log().push(
                (self.ptr, self.page_count),
            ),
            !self.dealloc ==> *final(pool) == *old(pool),
    {
        if self.dealloc {
            pool.free_raw_pages(self.ptr, self.page_count, 0);
        }
    }
}

} // verus!
