//! Layout decisions of the domain image loader: where each loadable
//! segment of an image is mapped, how large the image region is, which
//! range becomes the executable text section, and which words the
//! relative relocations patch.  Parsing the image format itself is the
//! collaborator's job; this module works on the parsed segment and
//! relocation records.

use vstd::prelude::*;
use crate::AlienError;
use crate::frame::FRAME_SIZE;

verus! {

/// Relies on memory_addr::align_up: the smallest address of the given
/// power-of-two alignment that is at least `addr`.
pub assume_specification [ memory_addr::align_up ] (addr: usize, align: usize) -> (r: usize)
    requires
        align > 0,
        (align & (align - 1) as usize) == 0usize,
        addr + align <= usize::MAX,
    ensures
        r % align == 0,
        addr <= r,
        r < addr + align,
;

/// Relies on memory_addr::align_down_4k: the greatest 4096-aligned
/// address that is at most `addr`.
pub assume_specification [ memory_addr::align_down_4k ] (addr: usize) -> (r: usize)
    ensures
        r % 4096 == 0,
        r <= addr,
        addr - r < 4096,
;

/// Relies on memory_addr::align_up_4k: the smallest 4096-aligned
/// address that is at least `addr`.
pub assume_specification [ memory_addr::align_up_4k ] (addr: usize) -> (r: usize)
    requires
        addr + 4096 <= usize::MAX,
    ensures
        r % 4096 == 0,
        addr <= r,
        r < addr + 4096,
;

/// One loadable segment of a domain image, as parsed from its program
/// headers.
#[derive(Debug, Clone, Copy, PartialEq, Eq, Structural)]
pub struct ProgramSegment {
    /// virtual address relative to the image base
    pub vaddr: usize,
    /// size of the segment in memory
    pub mem_size: usize,
    /// offset of the segment's bytes in the image file
    pub file_offset: usize,
    /// number of bytes present in the image file
    pub file_size: usize,
    pub readable: bool,
    pub writable: bool,
    pub executable: bool,
}

/// The mapping decision for one segment: the frame-aligned virtual
/// range to map, where in the region the file bytes are copied, and the
/// permissions.
#[derive(Debug, Clone, Copy, PartialEq, Eq, Structural)]
pub struct SegmentMapping {
    pub map_start: usize,
    pub map_end: usize,
    /// offset within the image region where the file bytes land
    pub copy_start: usize,
    pub copy_len: usize,
    pub readable: bool,
    pub writable: bool,
    pub executable: bool,
}

/// Whether `data` starts with the image magic.
pub fn is_elf_magic(data: &[u8]) -> (r: bool)
    ensures
        r == (data@.len() >= 4 && data@[0] == 0x7fu8 && data@[1] == 0x45u8 && data@[2] == 0x4cu8
            && data@[3] == 0x46u8),
{
    if data.len() < 4 {
        return false;
    }
    data[0] == 0x7f && data[1] == 0x45 && data[2] == 0x4c && data[3] == 0x46
}

/// How many bytes of address space the image needs: the end of its last
/// loadable segment, rounded up to a whole frame.  Rejects an image
/// whose addresses do not fit the machine word.
pub fn image_region_size(segments: &Vec<ProgramSegment>) -> (r: Result<usize, AlienError>)
    requires
        segments@.len() > 0,
    ensures
        ({
            let last = segments@.last();
            &&& (last.vaddr + last.mem_size + 4096 <= usize::MAX) ==> {
                &&& r is Ok
                &&& r->Ok_0 % 4096 == 0
                &&& last.vaddr + last.mem_size <= r->Ok_0
                &&& r->Ok_0 < last.vaddr + last.mem_size + 4096
            }
            &&& (last.vaddr + last.mem_size + 4096 > usize::MAX) ==> r == Err::<usize, AlienError>(
                AlienError::InvalidArgument,
            )
        }),
{
    let last = &segments[segments.len() - 1];
    if last.vaddr > usize::MAX - last.mem_size || last.vaddr + last.mem_size >= usize::MAX - 4095 {
        return Err(AlienError::InvalidArgument);
    }
    let end = last.vaddr + last.mem_size;
    proof {
        assert((4096usize & (4096 - 1) as usize) == 0usize) by (bit_vector);
    }
    Ok(memory_addr::align_up(end, FRAME_SIZE))
}

/// Decide the mapping of every loadable segment once the image region
/// starts at `virt_start`: each segment's range is widened to whole
/// frames, and its file bytes land at its offset within the region.
/// Rejects an image whose addresses do not fit the machine word.
pub fn plan_segments(segments: &Vec<ProgramSegment>, virt_start: usize) -> (r: Result<
    Vec<SegmentMapping>,
    AlienError,
>)
    ensures
        // the plan succeeds exactly when every segment address fits the
        // machine word with room for the frame rounding
        (forall|i: int|
            0 <= i < segments@.len() ==> segments@[i].vaddr + virt_start + segments@[i].mem_size
                + 4096 <= usize::MAX) <==> r is Ok,
        r is Ok ==> {
            &&& r->Ok_0@.len() == segments@.len()
            &&& forall|i: int|
                0 <= i < segments@.len() ==> {
                    let seg = segments@[i];
                    let m = #[trigger] r->Ok_0@[i];
                    &&& m.map_start % 4096 == 0
                    &&& m.map_start <= seg.vaddr + virt_start
                    &&& seg.vaddr + virt_start - m.map_start < 4096
                    &&& m.map_end % 4096 == 0
                    &&& seg.vaddr + virt_start + seg.mem_size <= m.map_end
                    &&& m.map_end < seg.vaddr + virt_start + seg.mem_size + 4096
                    &&& m.copy_start == seg.vaddr
                    &&& m.copy_len == seg.file_size
                    &&& m.readable == seg.readable
                    &&& m.writable == seg.writable
                    &&& m.executable == seg.executable
                }
        },
        r is Err ==> r == Err::<Vec<SegmentMapping>, AlienError>(AlienError::InvalidArgument),
{
    let n = segments.len();
    let mut out: Vec<SegmentMapping> = Vec::new();
    let mut i: usize = 0;
    while i < n
        invariant
            i <= n,
            n == segments@.len(),
            out@.len() == i,
            forall|j: int|
                0 <= j < i ==> segments@[j].vaddr + virt_start + segments@[j].mem_size + 4096
                    <= usize::MAX,
            forall|j: int|
                0 <= j < i ==> {
                    let seg = segments@[j];
                    let m = #[trigger] out@[j];
                    &&& m.map_start % 4096 == 0
                    &&& m.map_start <= seg.vaddr + virt_start
                    &&& seg.vaddr + virt_start - m.map_start < 4096
                    &&& m.map_end % 4096 == 0
                    &&& seg.vaddr + virt_start + seg.mem_size <= m.map_end
                    &&& m.map_end < seg.vaddr + virt_start + seg.mem_size + 4096
                    &&& m.copy_start == seg.vaddr
                    &&& m.copy_len == seg.file_size
                    &&& m.readable == seg.readable
                    &&& m.writable == seg.writable
                    &&& m.executable == seg.executable
                },
        decreases n - i,
    {
        let seg = &segments[i];
        if seg.vaddr > usize::MAX - virt_start {
            proof {
                assert(segments@[i as int].vaddr + virt_start + segments@[i as int].mem_size
                    + 4096 > usize::MAX);
            }
            return Err(AlienError::InvalidArgument);
        }
        let start_vaddr = seg.vaddr + virt_start;
        if start_vaddr > usize::MAX - seg.mem_size || start_vaddr + seg.mem_size >= usize::MAX
            - 4095 {
            proof {
                assert(segments@[i as int].vaddr + virt_start + segments@[i as int].mem_size
                    + 4096 > usize::MAX);
            }
            return Err(AlienError::InvalidArgument);
        }
        let end_vaddr = start_vaddr + seg.mem_size;
        let map_start = memory_addr::align_down_4k(start_vaddr);
        let map_end = memory_addr::align_up_4k(end_vaddr);
        out.push(
            SegmentMapping {
                map_start,
                map_end,
                copy_start: seg.vaddr,
                copy_len: seg.file_size,
                readable: seg.readable,
                writable: seg.writable,
                executable: seg.executable,
            },
        );
        i += 1;
    }
    Ok(out)
}

/// The executable text section: the range of the last executable
/// mapping, if any.
pub open spec fn spec_text_section(s: Seq<SegmentMapping>) -> Option<(usize, usize)>
    decreases s.len(),
{
    if s.len() == 0 {
        None
    } else if s.last().executable {
        Some((s.last().map_start, s.last().map_end))
    } else {
        spec_text_section(s.drop_last())
    }
}

/// Find the text section among the planned mappings.
pub fn find_text_section(mappings: &Vec<SegmentMapping>) -> (r: Option<(usize, usize)>)
    ensures
        r == spec_text_section(mappings@),
{
    let n = mappings.len();
    let mut result: Option<(usize, usize)> = None;
    let mut i: usize = 0;
    while i < n
        invariant
            i <= n,
            n == mappings@.len(),
            result == spec_text_section(mappings@.take(i as int)),
        decreases n - i,
    {
        proof {
            assert(mappings@.take(i as int + 1).drop_last() =~= mappings@.take(i as int));
            assert(mappings@.take(i as int + 1).last() == mappings@[i as int]);
        }
        let m = &mappings[i];
        if m.executable {
            result = Some((m.map_start, m.map_end));
        }
        i += 1;
    }
    proof {
        assert(mappings@.take(n as int) =~= mappings@);
    }
    result
}

/// One relocation record of the image, as parsed from its relocation
/// section.
#[derive(Debug, Clone, Copy, PartialEq, Eq, Structural)]
pub struct RelaEntry {
    pub offset: usize,
    pub addend: usize,
    pub rtype: u32,
}

/// The words the relative relocations patch once the image region
/// starts at `region_start`: each entry of the architecture's relative
/// type writes `region_start + addend` at `region_start + offset`.
/// Rejects addresses that do not fit the machine word.  Entries of any
/// other type are not handled and must not appear.
pub fn relocation_entries(
    entries: &Vec<RelaEntry>,
    region_start: usize,
    relative_type: u32,
) -> (r: Result<Vec<(usize, usize)>, AlienError>)
    requires
        forall|i: int| 0 <= i < entries@.len() ==> entries@[i].rtype == relative_type,
    ensures
        // rebasing succeeds exactly when every patched address and
        // value fits the machine word
        (forall|i: int|
            0 <= i < entries@.len() ==> region_start + entries@[i].offset <= usize::MAX
                && region_start + entries@[i].addend <= usize::MAX) <==> r is Ok,
        r is Ok ==> {
            &&& r->Ok_0@.len() == entries@.len()
            &&& forall|i: int|
                0 <= i < entries@.len() ==> #[trigger] r->Ok_0@[i] == (
                ((region_start + entries@[i].offset) as usize),
                ((region_start + entries@[i].addend) as usize),
                ) && region_start + entries@[i].offset <= usize::MAX && region_start
                    + entries@[i].addend <= usize::MAX
        },
        r is Err ==> r == Err::<Vec<(usize, usize)>, AlienError>(AlienError::InvalidArgument),
{
    let n = entries.len();
    let mut out: Vec<(usize, usize)> = Vec::new();
    let mut i: usize = 0;
    while i < n
        invariant
            i <= n,
            n == entries@.len(),
            out@.len() == i,
            forall|j: int|
                0 <= j < i ==> region_start + entries@[j].offset <= usize::MAX && region_start
                    + entries@[j].addend <= usize::MAX,
            forall|j: int|
                0 <= j < i ==> #[trigger] out@[j] == (
                ((region_start + entries@[j].offset) as usize),
                ((region_start + entries@[j].addend) as usize),
                ) && region_start + entries@[j].offset <= usize::MAX && region_start
                    + entries@[j].addend <= usize::MAX,
        decreases n - i,
    {
        let e = &entries[i];
        if e.offset > usize::MAX - region_start || e.addend > usize::MAX - region_start {
            proof {
                assert(!(region_start + entries@[i as int].offset <= usize::MAX && region_start
                    + entries@[i as int].addend <= usize::MAX));
            }
            return Err(AlienError::InvalidArgument);
        }
        let addr = region_start + e.offset;
        let value = region_start + e.addend;
        out.push((addr, value));
        i += 1;
    }
    Ok(out)
}

} // verus!
