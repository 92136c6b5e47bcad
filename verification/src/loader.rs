//! Segment placement: exact-address placement of the kernel, relocatable
//! placement of the init image, segment materialization into allocated
//! regions, and reservation of the multiprocessor trampoline page.

use vstd::prelude::*;

use crate::elf::{Image, ProgramSegment, PT_LOAD};
use crate::error::BootError;
use crate::memory::{
    AllocationRequest, BootMemory, MemoryRegion, MemoryTag, RegionModel, spec_any_base,
    spec_exact_fits, spec_extents_preserved, spec_fresh_region, spec_region_containing,
};
use crate::util::{HIGHER_HALF_MASK, spec_pages};

verus! {

/// Fixed low physical address of the page reserved for multiprocessor
/// startup code.
pub const AP_TRAMPOLINE_BASE: u64 = 0x6000;

/// What relocatable placement of the init image hands to the downstream
/// entry-transfer stage: where the image landed, how much was reserved, and
/// the virtual addresses the kernel needs to find the init process.
#[derive(Clone, Copy, Debug, PartialEq, Eq, Structural)]
pub struct InitImageInfo {
    pub loaded_address: u64,
    pub init_image_pages: u64,
    pub entry_point_virtual_address: u64,
    pub init_info_virtual_address: u64,
    pub init_ipc_buffer_virtual_address: u64,
}

/// The segment must be placed in memory.
pub open spec fn spec_is_load(seg: ProgramSegment) -> bool {
    seg.segment_type == PT_LOAD
}

/// The segment must be placed in memory.
pub fn segment_is_load(segment: &ProgramSegment) -> (r: bool)
    ensures
        r == spec_is_load(*segment),
{
    segment.segment_type == PT_LOAD
}

/// `address` with the higher-half bit pattern stripped: the true physical
/// target of an address declared under the higher-half virtual convention.
pub open spec fn spec_masked_address(address: u64) -> u64 {
    address & !HIGHER_HALF_MASK
}

/// Pages backing one segment: `ceil(mem_size / 4096)`.
pub open spec fn spec_segment_pages(seg: ProgramSegment) -> int {
    spec_pages(seg.mem_size as int)
}

/// The exact-address allocation request one kernel segment issues: its
/// stripped physical address, sized to its whole memory extent, tagged as
/// firmware-reserved.
pub open spec fn spec_segment_request(seg: ProgramSegment) -> AllocationRequest {
    AllocationRequest::Exact {
        physical_address: spec_masked_address(seg.physical_address),
        pages: spec_segment_pages(seg) as u64,
        tag: MemoryTag::Reserved,
    }
}

/// The allocation requests exact-address placement issues: one per LOAD
/// segment with nonzero `mem_size`, in document order; a segment with no
/// backing memory issues none.
pub open spec fn spec_kernel_requests(segments: Seq<ProgramSegment>) -> Seq<AllocationRequest>
    decreases segments.len(),
{
    if segments.len() == 0 {
        Seq::empty()
    } else {
        let rest = spec_kernel_requests(segments.drop_last());
        if spec_is_load(segments.last()) && segments.last().mem_size > 0 {
            rest.push(spec_segment_request(segments.last()))
        } else {
            rest
        }
    }
}

/// Computes the exact-address allocation requests of an image, in document
/// order of its LOAD segments.
#[verifier::loop_isolation(false)]
pub fn kernel_allocation_requests(image: &Image) -> (r: Vec<AllocationRequest>)
    ensures
        r@ =~= spec_kernel_requests(image.segments@),
{
    let mut requests: Vec<AllocationRequest> = Vec::new();
    let n = image.segments.len();
    let mut i: usize = 0;
    while i < n
        invariant
            i <= n,
            requests@ =~= spec_kernel_requests(image.segments@.take(i as int)),
        decreases n - i,
    {
        proof {
            assert(image.segments@.take(i + 1).drop_last() =~= image.segments@.take(i as int));
            assert(image.segments@.take(i + 1).last() == image.segments@[i as int]);
        }
        let segment = image.segments[i];
        if segment_is_load(&segment) && segment.mem_size > 0 {
            let pages = crate::util::pages_for_bytes(segment.mem_size);
            requests.push(
                AllocationRequest::Exact {
                    physical_address: segment.physical_address & !HIGHER_HALF_MASK,
                    pages,
                    tag: MemoryTag::Reserved,
                },
            );
        }
        i = i + 1;
    }
    proof {
        assert(image.segments@.take(n as int) =~= image.segments@);
    }
    requests
}

/// The contiguous physical span `(start, end)` covering all LOAD segments:
/// minimum physical address and maximum `physical_address + mem_size`. An
/// image without LOAD segments spans `(u64::MAX, 0)`. Addresses are taken
/// as declared, without masking: relocatable placement treats them as
/// relative offsets.
pub open spec fn spec_load_span(segments: Seq<ProgramSegment>) -> (int, int)
    decreases segments.len(),
{
    if segments.len() == 0 {
        (u64::MAX as int, 0int)
    } else {
        let rest = spec_load_span(segments.drop_last());
        let seg = segments.last();
        if spec_is_load(seg) {
            let start = if seg.physical_address < rest.0 {
                seg.physical_address as int
            } else {
                rest.0
            };
            let end = if seg.physical_address + seg.mem_size > rest.1 {
                seg.physical_address + seg.mem_size
            } else {
                rest.1
            };
            (start, end)
        } else {
            rest
        }
    }
}

/// Computes the load span of the image's LOAD segments. Fails with
/// `ParseError` exactly when a segment's end does not fit the address
/// space.
#[verifier::loop_isolation(false)]
pub fn calculate_load_span_physical_address(image: &Image) -> (r: Result<(u64, u64), BootError>)
    ensures
        spec_load_span(image.segments@).1 <= u64::MAX ==> (r matches Ok(p)
            && p.0 == spec_load_span(image.segments@).0 && p.1 == spec_load_span(
            image.segments@,
        ).1),
        spec_load_span(image.segments@).1 > u64::MAX ==> (r matches Err(e) && e
            == BootError::ParseError),
{
    let mut start: u64 = u64::MAX;
    let mut end: u64 = 0;
    let n = image.segments.len();
    let mut i: usize = 0;
    while i < n
        invariant
            i <= n,
            start == spec_load_span(image.segments@.take(i as int)).0,
            end == spec_load_span(image.segments@.take(i as int)).1,
        decreases n - i,
    {
        proof {
            assert(image.segments@.take(i + 1).drop_last() =~= image.segments@.take(i as int));
            assert(image.segments@.take(i + 1).last() == image.segments@[i as int]);
        }
        let segment = image.segments[i];
        if segment_is_load(&segment) {
            if segment.mem_size > u64::MAX - segment.physical_address {
                proof {
                    lemma_load_span_end_bound(image.segments@, i as int);
                }
                return Err(BootError::ParseError);
            }
            if segment.physical_address < start {
                start = segment.physical_address;
            }
            if segment.physical_address + segment.mem_size > end {
                end = segment.physical_address + segment.mem_size;
            }
        }
        i = i + 1;
    }
    proof {
        assert(image.segments@.take(n as int) =~= image.segments@);
    }
    Ok((start, end))
}

/// Destination address of a segment's bytes: its declared physical address
/// plus the placement offset; a segment without file bytes has the
/// higher-half bits stripped from its address first.
pub open spec fn spec_copy_dest(seg: ProgramSegment, physical_offset: u64) -> int {
    if seg.file_size == 0 {
        spec_masked_address(seg.physical_address) + physical_offset
    } else {
        seg.physical_address + physical_offset
    }
}

/// Bytes a materialized segment touches at its destination: file bytes
/// plus the zero-filled tail.
pub open spec fn spec_copy_span(seg: ProgramSegment) -> int {
    if seg.mem_size > seg.file_size {
        seg.mem_size as int
    } else {
        seg.file_size as int
    }
}

/// The segment's file bytes lie inside the image buffer.
pub open spec fn spec_source_ok(seg: ProgramSegment, s: Seq<u8>) -> bool {
    seg.file_offset + seg.file_size <= s.len()
}

/// Materialization ignores the segment: it is not LOAD, or touches no byte.
pub open spec fn spec_segment_skipped(seg: ProgramSegment) -> bool {
    !spec_is_load(seg) || spec_copy_span(seg) == 0
}

/// Contents of a region after one segment lands in it: bytes `[0, file_size)`
/// of the destination window equal the segment's file bytes, the window
/// `[file_size, mem_size)` reads as zero, and everything else is untouched.
pub open spec fn spec_materialized_data(
    region: RegionModel,
    seg: ProgramSegment,
    s: Seq<u8>,
    physical_offset: u64,
) -> Seq<u8> {
    let start = spec_copy_dest(seg, physical_offset) - region.base;
    Seq::new(
        region.data.len(),
        |i: int|
            {
                if start <= i < start + seg.file_size {
                    s[seg.file_offset + (i - start)]
                } else if seg.mem_size > seg.file_size && start + seg.file_size <= i < start
                    + seg.mem_size {
                    0u8
                } else {
                    region.data[i]
                }
            },
    )
}

/// Copies one LOAD segment's file bytes to its destination and zero-fills
/// the trailing `mem_size - file_size` bytes, through the bounds-checked
/// region handle. A non-LOAD segment, or one that touches no byte, is
/// skipped untouched. Fails with `ParseError` exactly when the file range
/// lies outside the image, and with `AllocationError` exactly when the
/// destination range lies outside the region's extent; a failed call
/// leaves the region untouched.
#[verifier::loop_isolation(false)]
pub fn copy_segment_to_physical_address(
    segment: &ProgramSegment,
    image: &[u8],
    physical_offset: u64,
    region: &mut MemoryRegion,
) -> (r: Result<(), BootError>)
    requires
        old(region)@.wf(),
    ensures
        final(region)@.base == old(region)@.base,
        final(region)@.data.len() == old(region)@.data.len(),
        final(region)@.wf(),
        r is Ok <==> spec_segment_skipped(*segment) || (spec_source_ok(*segment, image@) && old(
            region,
        )@.contains_range(spec_copy_dest(*segment, physical_offset), spec_copy_span(*segment))),
        spec_segment_skipped(*segment) ==> final(region)@ == old(region)@,
        r is Err ==> final(region)@ == old(region)@,
        r matches Err(e) ==> e == if !spec_source_ok(*segment, image@) {
            BootError::ParseError
        } else {
            BootError::AllocationError
        },
        r is Ok && !spec_segment_skipped(*segment) ==> final(region)@.data
            =~= spec_materialized_data(old(region)@, *segment, image@, physical_offset),
{
    let ghost orig = region@;
    if !segment_is_load(segment) {
        return Ok(());
    }
    let file_size = segment.file_size;
    let mem_size = segment.mem_size;
    let span = if mem_size > file_size {
        mem_size
    } else {
        file_size
    };
    if span == 0 {
        return Ok(());
    }
    let src_len = image.len();
    if segment.file_offset > src_len as u64 || file_size > src_len as u64 - segment.file_offset {
        return Err(BootError::ParseError);
    }
    let address_base = if file_size == 0 {
        segment.physical_address & !HIGHER_HALF_MASK
    } else {
        segment.physical_address
    };
    if address_base > u64::MAX - physical_offset {
        return Err(BootError::AllocationError);
    }
    let dest = address_base + physical_offset;
    let region_len = region.data.len();
    if !(region.base <= dest && dest - region.base <= region_len as u64 && span <= region_len
        as u64 - (dest - region.base)) {
        return Err(BootError::AllocationError);
    }
    let start = (dest - region.base) as usize;
    let file_offset = segment.file_offset as usize;
    let copy_len = file_size as usize;
    let mut i: usize = 0;
    while i < copy_len
        invariant
            region@.base == orig.base,
            region@.data.len() == orig.data.len(),
            i <= copy_len,
            forall|t: int|
                start <= t < start + i ==> #[trigger] region@.data[t] == image@[file_offset + (t
                    - start)],
            forall|t: int|
                0 <= t < region@.data.len() && !(start <= t < start + i) ==> #[trigger] region@.data[t]
                    == orig.data[t],
        decreases copy_len - i,
    {
        let b = image[file_offset + i];
        region.data.set(start + i, b);
        i = i + 1;
    }
    if mem_size > file_size {
        let zero_len = (mem_size - file_size) as usize;
        let mut j: usize = 0;
        while j < zero_len
            invariant
                region@.base == orig.base,
                region@.data.len() == orig.data.len(),
                j <= zero_len,
                forall|t: int|
                    start <= t < start + copy_len ==> #[trigger] region@.data[t] == image@[
                    file_offset + (t - start)],
                forall|t: int|
                    start + copy_len <= t < start + copy_len + j ==> #[trigger] region@.data[t]
                        == 0,
                forall|t: int|
                    0 <= t < region@.data.len() && !(start <= t < start + copy_len + j)
                        ==> #[trigger] region@.data[t] == orig.data[t],
            decreases zero_len - j,
        {
            region.data.set(start + copy_len + j, 0);
            j = j + 1;
        }
    }
    proof {
        assert(region@.data =~= spec_materialized_data(orig, *segment, image@, physical_offset));
    }
    Ok(())
}

/// Reservations after exact-address placement of one kernel segment: a
/// non-LOAD segment, or one with no backing memory, reserves nothing; any
/// other reserves its whole extent at its stripped address, or fails.
pub open spec fn spec_allocate_segment(regions: Seq<RegionModel>, seg: ProgramSegment) -> Result<
    Seq<RegionModel>,
    BootError,
> {
    if !spec_is_load(seg) || seg.mem_size == 0 {
        Ok(regions)
    } else if spec_exact_fits(
        regions,
        spec_masked_address(seg.physical_address),
        spec_segment_pages(seg) as u64,
    ) {
        Ok(
            regions.push(
                spec_fresh_region(
                    spec_masked_address(seg.physical_address),
                    spec_segment_pages(seg) as u64,
                ),
            ),
        )
    } else {
        Err(BootError::AllocationError)
    }
}

/// Reservations after exact-address placement of every segment in order;
/// the first failure aborts the rest.
pub open spec fn spec_allocate_kernel(
    regions: Seq<RegionModel>,
    segments: Seq<ProgramSegment>,
) -> Result<Seq<RegionModel>, BootError>
    decreases segments.len(),
{
    if segments.len() == 0 {
        Ok(regions)
    } else {
        match spec_allocate_segment(regions, segments.first()) {
            Ok(next) => spec_allocate_kernel(next, segments.drop_first()),
            Err(e) => Err(e),
        }
    }
}

/// Reserves backing memory for one kernel segment at its stripped physical
/// address; a non-LOAD segment or one with no backing memory reserves
/// nothing. Failure leaves the reservations untouched.
pub fn allocate_segment_at_exact_physical_address(
    segment: &ProgramSegment,
    memory: &mut BootMemory,
) -> (r: Result<(), BootError>)
    requires
        old(memory).wf(),
    ensures
        final(memory).wf(),
        final(memory).unusable_tag_supported == old(memory).unusable_tag_supported,
        spec_extents_preserved(old(memory).regions_model(), final(memory).regions_model()),
        match spec_allocate_segment(old(memory).regions_model(), *segment) {
            Ok(rs) => r is Ok && final(memory).regions_model() =~= rs,
            Err(e) => r matches Err(e2) && e2 == e && final(memory).regions_model() =~= old(
                memory,
            ).regions_model(),
        },
{
    if !segment_is_load(segment) || segment.mem_size == 0 {
        return Ok(());
    }
    let pages = crate::util::pages_for_bytes(segment.mem_size);
    let physical_address = segment.physical_address & !HIGHER_HALF_MASK;
    memory.allocate_exact(physical_address, pages, MemoryTag::Reserved)
}

/// Reserves backing memory for every LOAD segment of the kernel image, in
/// document order, each at its own stripped address. The first failure
/// aborts the rest; boot-time reservations are never rolled back, so the
/// ones already made stay.
#[verifier::loop_isolation(false)]
pub fn allocate_kernel_segments(image: &Image, memory: &mut BootMemory) -> (r: Result<
    (),
    BootError,
>)
    requires
        old(memory).wf(),
    ensures
        final(memory).wf(),
        final(memory).unusable_tag_supported == old(memory).unusable_tag_supported,
        old(memory).regions_model().is_prefix_of(final(memory).regions_model()),
        spec_extents_preserved(old(memory).regions_model(), final(memory).regions_model()),
        match spec_allocate_kernel(old(memory).regions_model(), image.segments@) {
            Ok(rs) => r is Ok && final(memory).regions_model() =~= rs,
            Err(e) => r matches Err(e2) && e2 == e,
        },
{
    let n = image.segments.len();
    proof {
        assert(image.segments@.skip(0) =~= image.segments@);
    }
    let mut i: usize = 0;
    while i < n
        invariant
            i <= n,
            memory.wf(),
            memory.unusable_tag_supported == old(memory).unusable_tag_supported,
            old(memory).regions_model().is_prefix_of(memory.regions_model()),
            spec_allocate_kernel(old(memory).regions_model(), image.segments@)
                == spec_allocate_kernel(memory.regions_model(), image.segments@.skip(i as int)),
        decreases n - i,
    {
        proof {
            assert(image.segments@.skip(i as int).first() == image.segments@[i as int]);
            assert(image.segments@.skip(i as int).drop_first() =~= image.segments@.skip(i + 1));
        }
        let segment = image.segments[i];
        let ghost before = memory.regions_model();
        let res = allocate_segment_at_exact_physical_address(&segment, memory);
        if let Err(e) = res {
            return Err(e);
        }
        proof {
            if before.len() < memory.regions_model().len() {
                assert(before.is_prefix_of(memory.regions_model()));
            }
        }
        i = i + 1;
    }
    proof {
        assert(image.segments@.skip(n as int) =~= Seq::<ProgramSegment>::empty());
    }
    Ok(())
}

/// Reservations after one segment lands: the region containing the
/// destination window holds the segment's bytes and zeroed tail; with no
/// such region the write is refused.
pub open spec fn spec_materialize_segment(
    regions: Seq<RegionModel>,
    seg: ProgramSegment,
    s: Seq<u8>,
    physical_offset: u64,
) -> Result<Seq<RegionModel>, BootError> {
    if spec_segment_skipped(seg) {
        Ok(regions)
    } else if !spec_source_ok(seg, s) {
        Err(BootError::ParseError)
    } else {
        match spec_region_containing(
            regions,
            spec_copy_dest(seg, physical_offset),
            spec_copy_span(seg),
        ) {
            Some(idx) => Ok(
                regions.update(
                    idx,
                    RegionModel {
                        base: regions[idx].base,
                        data: spec_materialized_data(regions[idx], seg, s, physical_offset),
                    },
                ),
            ),
            None => Err(BootError::AllocationError),
        }
    }
}

/// Reservations after every segment lands, in document order; the first
/// failure aborts the rest.
pub open spec fn spec_materialize_all(
    regions: Seq<RegionModel>,
    segments: Seq<ProgramSegment>,
    s: Seq<u8>,
    physical_offset: u64,
) -> Result<Seq<RegionModel>, BootError>
    decreases segments.len(),
{
    if segments.len() == 0 {
        Ok(regions)
    } else {
        match spec_materialize_segment(regions, segments.first(), s, physical_offset) {
            Ok(next) => spec_materialize_all(next, segments.drop_first(), s, physical_offset),
            Err(e) => Err(e),
        }
    }
}

/// Lands one segment in the reservation that contains its destination
/// window. Failure leaves the reservations untouched.
pub fn materialize_segment(
    segment: &ProgramSegment,
    image: &[u8],
    physical_offset: u64,
    memory: &mut BootMemory,
) -> (r: Result<(), BootError>)
    requires
        old(memory).wf(),
    ensures
        final(memory).wf(),
        final(memory).unusable_tag_supported == old(memory).unusable_tag_supported,
        final(memory).regions_model().len() == old(memory).regions_model().len(),
        spec_extents_preserved(old(memory).regions_model(), final(memory).regions_model()),
        match spec_materialize_segment(
            old(memory).regions_model(),
            *segment,
            image@,
            physical_offset,
        ) {
            Ok(rs) => r is Ok && final(memory).regions_model() =~= rs,
            Err(e) => r matches Err(e2) && e2 == e && final(memory).regions_model() =~= old(
                memory,
            ).regions_model(),
        },
{
    if !segment_is_load(segment) {
        return Ok(());
    }
    let file_size = segment.file_size;
    let mem_size = segment.mem_size;
    let span = if mem_size > file_size {
        mem_size
    } else {
        file_size
    };
    if span == 0 {
        return Ok(());
    }
    let src_len = image.len();
    if segment.file_offset > src_len as u64 || file_size > src_len as u64 - segment.file_offset {
        return Err(BootError::ParseError);
    }
    let address_base = if file_size == 0 {
        segment.physical_address & !HIGHER_HALF_MASK
    } else {
        segment.physical_address
    };
    if address_base > u64::MAX - physical_offset {
        proof {
            crate::memory::lemma_region_containing_none(
                memory.regions_model(),
                spec_copy_dest(*segment, physical_offset),
                spec_copy_span(*segment),
                0,
            );
        }
        return Err(BootError::AllocationError);
    }
    let dest = address_base + physical_offset;
    match memory.region_index_containing(dest, span) {
        None => Err(BootError::AllocationError),
        Some(idx) => {
            let ghost before = memory.regions_model();
            let mut region = memory.regions.remove(idx);
            let res = copy_segment_to_physical_address(segment, image, physical_offset, &mut region);
            memory.regions.insert(idx, region);
            proof {
                assert(memory.regions_model() =~= before.update(idx as int, region@));
                assert forall|a: int, b: int|
                    0 <= a < memory.regions_model().len() && 0 <= b < memory.regions_model().len()
                        && a != b implies (#[trigger] memory.regions_model()[a].end() <= #[trigger]
                memory.regions_model()[b].base || memory.regions_model()[b].end()
                    <= memory.regions_model()[a].base) by {
                    assert(before[a].base == memory.regions_model()[a].base && before[a].end()
                        == memory.regions_model()[a].end());
                    assert(before[b].base == memory.regions_model()[b].base && before[b].end()
                        == memory.regions_model()[b].end());
                }
            }
            res
        },
    }
}

/// Lands every LOAD segment of an image at `physical_offset` past its
/// declared address, in document order. The first failure aborts the rest.
#[verifier::loop_isolation(false)]
pub fn materialize_load_segments(
    image: &Image,
    bytes: &[u8],
    physical_offset: u64,
    memory: &mut BootMemory,
) -> (r: Result<(), BootError>)
    requires
        old(memory).wf(),
    ensures
        final(memory).wf(),
        final(memory).unusable_tag_supported == old(memory).unusable_tag_supported,
        final(memory).regions_model().len() == old(memory).regions_model().len(),
        spec_extents_preserved(old(memory).regions_model(), final(memory).regions_model()),
        match spec_materialize_all(
            old(memory).regions_model(),
            image.segments@,
            bytes@,
            physical_offset,
        ) {
            Ok(rs) => r is Ok && final(memory).regions_model() =~= rs,
            Err(e) => r matches Err(e2) && e2 == e,
        },
{
    let n = image.segments.len();
    proof {
        assert(image.segments@.skip(0) =~= image.segments@);
    }
    let mut i: usize = 0;
    while i < n
        invariant
            i <= n,
            memory.wf(),
            memory.unusable_tag_supported == old(memory).unusable_tag_supported,
            memory.regions_model().len() == old(memory).regions_model().len(),
            spec_extents_preserved(old(memory).regions_model(), memory.regions_model()),
            spec_materialize_all(
                old(memory).regions_model(),
                image.segments@,
                bytes@,
                physical_offset,
            ) == spec_materialize_all(
                memory.regions_model(),
                image.segments@.skip(i as int),
                bytes@,
                physical_offset,
            ),
        decreases n - i,
    {
        proof {
            assert(image.segments@.skip(i as int).first() == image.segments@[i as int]);
            assert(image.segments@.skip(i as int).drop_first() =~= image.segments@.skip(i + 1));
        }
        let segment = image.segments[i];
        let res = materialize_segment(&segment, bytes, physical_offset, memory);
        if let Err(e) = res {
            return Err(e);
        }
        i = i + 1;
    }
    proof {
        assert(image.segments@.skip(n as int) =~= Seq::<ProgramSegment>::empty());
    }
    Ok(())
}

/// One write an embedding program performs into reserved physical memory:
/// copy `file_size` bytes of the image, starting at `file_offset`, to the
/// destination address, then zero the following `zero_length` bytes.
#[derive(Clone, Copy, Debug, PartialEq, Eq, Structural)]
pub struct CopyCommand {
    pub destination: u64,
    pub file_offset: u64,
    pub file_size: u64,
    pub zero_length: u64,
}

/// The write command one segment issues at `physical_offset`.
pub open spec fn spec_command_for(seg: ProgramSegment, physical_offset: u64) -> CopyCommand {
    CopyCommand {
        destination: spec_copy_dest(seg, physical_offset) as u64,
        file_offset: seg.file_offset,
        file_size: seg.file_size,
        zero_length: if seg.mem_size > seg.file_size {
            (seg.mem_size - seg.file_size) as u64
        } else {
            0
        },
    }
}

/// The write commands of every LOAD segment at `physical_offset`, in
/// document order; skipped segments issue none. A segment whose file
/// bytes lie outside the image is refused as malformed; a destination
/// window that does not fit the address space is refused as unplaceable.
pub open spec fn spec_copy_commands(
    segments: Seq<ProgramSegment>,
    s: Seq<u8>,
    physical_offset: u64,
) -> Result<Seq<CopyCommand>, BootError>
    decreases segments.len(),
{
    if segments.len() == 0 {
        Ok(Seq::empty())
    } else {
        match spec_copy_commands(segments.drop_last(), s, physical_offset) {
            Err(e) => Err(e),
            Ok(rest) => {
                let seg = segments.last();
                if spec_segment_skipped(seg) {
                    Ok(rest)
                } else if !spec_source_ok(seg, s) {
                    Err(BootError::ParseError)
                } else if spec_copy_dest(seg, physical_offset) + spec_copy_span(seg) > u64::MAX {
                    Err(BootError::AllocationError)
                } else {
                    Ok(rest.push(spec_command_for(seg, physical_offset)))
                }
            },
        }
    }
}

/// Computes the write commands of the LOAD segments at `physical_offset`,
/// in document order, validating each segment's file range against the
/// image buffer.
#[verifier::loop_isolation(false)]
pub fn copy_commands_for_segments(
    segments: &Vec<ProgramSegment>,
    bytes: &[u8],
    physical_offset: u64,
) -> (r: Result<Vec<CopyCommand>, BootError>)
    ensures
        match spec_copy_commands(segments@, bytes@, physical_offset) {
            Ok(cs) => r matches Ok(v) && v@ =~= cs,
            Err(e) => r matches Err(e2) && e2 == e,
        },
{
    let mut commands: Vec<CopyCommand> = Vec::new();
    let n = segments.len();
    let src_len = bytes.len();
    let mut i: usize = 0;
    while i < n
        invariant
            i <= n,
            spec_copy_commands(segments@.take(i as int), bytes@, physical_offset) matches Ok(cs)
                && commands@ =~= cs,
        decreases n - i,
    {
        proof {
            assert(segments@.take(i + 1).drop_last() =~= segments@.take(i as int));
            assert(segments@.take(i + 1).last() == segments@[i as int]);
        }
        let segment = segments[i];
        let file_size = segment.file_size;
        let mem_size = segment.mem_size;
        let span = if mem_size > file_size {
            mem_size
        } else {
            file_size
        };
        if segment_is_load(&segment) && span > 0 {
            if segment.file_offset > src_len as u64 || file_size > src_len as u64
                - segment.file_offset {
                proof {
                    lemma_copy_commands_prefix_refusal(segments@, bytes@, i as int, physical_offset);
                }
                return Err(BootError::ParseError);
            }
            let address_base = if file_size == 0 {
                segment.physical_address & !HIGHER_HALF_MASK
            } else {
                segment.physical_address
            };
            if address_base > u64::MAX - physical_offset || span > u64::MAX - (address_base
                + physical_offset) {
                proof {
                    lemma_copy_commands_prefix_refusal(segments@, bytes@, i as int, physical_offset);
                }
                return Err(BootError::AllocationError);
            }
            commands.push(
                CopyCommand {
                    destination: address_base + physical_offset,
                    file_offset: segment.file_offset,
                    file_size,
                    zero_length: if mem_size > file_size {
                        mem_size - file_size
                    } else {
                        0
                    },
                },
            );
        }
        i = i + 1;
    }
    proof {
        assert(segments@.take(n as int) =~= segments@);
    }
    Ok(commands)
}

/// Once the commands up to and including a segment are refused, so is the
/// whole table.
proof fn lemma_copy_commands_prefix_refusal(
    segments: Seq<ProgramSegment>,
    s: Seq<u8>,
    i: int,
    physical_offset: u64,
)
    requires
        0 <= i < segments.len(),
    ensures
        spec_copy_commands(segments.take(i + 1), s, physical_offset) matches Err(e)
            ==> spec_copy_commands(segments, s, physical_offset) == Err::<
        Seq<CopyCommand>,
        BootError,
    >(e),
    decreases segments.len() - i,
{
    if i < segments.len() - 1 {
        lemma_copy_commands_prefix_refusal(segments, s, i + 1, physical_offset);
        assert(segments.take(i + 2).drop_last() =~= segments.take(i + 1));
    } else {
        assert(segments.take(i + 1) =~= segments);
    }
}

/// Reserves one page at the fixed low trampoline address for later
/// multiprocessor startup code. Memory-type tags are tried in a fixed
/// priority order, first `Unusable`, then `Reserved`, because firmware
/// implementations differ in which tag they accept for addresses already
/// described in their memory map; the first accepted tag wins. The call
/// succeeds exactly when the trampoline page is still free; when every
/// attempt is rejected it reports `OutOfResources`, and the reservations
/// are untouched.
pub fn reserve_ap_trampoline(memory: &mut BootMemory) -> (r: Result<(), BootError>)
    requires
        old(memory).wf(),
    ensures
        final(memory).wf(),
        final(memory).unusable_tag_supported == old(memory).unusable_tag_supported,
        spec_extents_preserved(old(memory).regions_model(), final(memory).regions_model()),
        r is Ok <==> spec_exact_fits(old(memory).regions_model(), AP_TRAMPOLINE_BASE, 1),
        r is Ok ==> final(memory).regions_model() =~= old(memory).regions_model().push(
            spec_fresh_region(AP_TRAMPOLINE_BASE, 1),
        ),
        r matches Err(e) ==> e == BootError::OutOfResources && final(memory).regions_model() =~= old(
            memory,
        ).regions_model(),
{
    match memory.allocate_exact(AP_TRAMPOLINE_BASE, 1, MemoryTag::Unusable) {
        Ok(_) => Ok(()),
        Err(_) => match memory.allocate_exact(AP_TRAMPOLINE_BASE, 1, MemoryTag::Reserved) {
            Ok(_) => Ok(()),
            Err(_) => Err(BootError::OutOfResources),
        },
    }
}

/// Reservations after the full kernel load: every LOAD segment reserved at
/// its stripped address, then every LOAD segment's bytes landed with a zero
/// placement offset.
pub open spec fn spec_load_kernel(
    regions: Seq<RegionModel>,
    segments: Seq<ProgramSegment>,
    s: Seq<u8>,
) -> Result<Seq<RegionModel>, BootError> {
    match spec_allocate_kernel(regions, segments) {
        Err(e) => Err(e),
        Ok(rs) => spec_materialize_all(rs, segments, s, 0),
    }
}

/// Exact-address placement of the kernel: reserves backing memory for every
/// LOAD segment at its own stripped physical address, materializes each
/// segment there, and returns the image's entry virtual address as the
/// kernel entry point. The first failure aborts the rest.
pub fn load_kernel_at_physical_address(
    kernel_image: &Image,
    kernel_bytes: &[u8],
    memory: &mut BootMemory,
) -> (r: Result<u64, BootError>)
    requires
        old(memory).wf(),
    ensures
        final(memory).wf(),
        final(memory).unusable_tag_supported == old(memory).unusable_tag_supported,
        spec_extents_preserved(old(memory).regions_model(), final(memory).regions_model()),
        match spec_load_kernel(old(memory).regions_model(), kernel_image.segments@, kernel_bytes@) {
            Ok(rs) => r matches Ok(entry) && entry == kernel_image.entry_point
                && final(memory).regions_model() =~= rs,
            Err(e) => r matches Err(e2) && e2 == e,
        },
{
    allocate_kernel_segments(kernel_image, memory)?;
    materialize_load_segments(kernel_image, kernel_bytes, 0, memory)?;
    Ok(kernel_image.entry_point)
}

/// Name of the init metadata symbol locating the info area.
pub open spec fn spec_init_info_name() -> Seq<u8> {
    Seq::new("__init_info_start"@.len(), |i: int| "__init_info_start"@[i] as u8)
}

/// Name of the init metadata symbol locating the IPC buffer.
pub open spec fn spec_init_ipc_name() -> Seq<u8> {
    Seq::new("__init_ipc_buffer_start"@.len(), |i: int| "__init_ipc_buffer_start"@[i] as u8)
}

fn init_info_symbol_name() -> (r: &'static [u8])
    ensures
        r@ =~= spec_init_info_name(),
{
    let s: &str = "__init_info_start";
    proof {
        reveal_strlit("__init_info_start");
        vstd::string::is_ascii_spec_bytes(s);
    }
    s.as_bytes()
}

fn init_ipc_symbol_name() -> (r: &'static [u8])
    ensures
        r@ =~= spec_init_ipc_name(),
{
    let s: &str = "__init_ipc_buffer_start";
    proof {
        reveal_strlit("__init_ipc_buffer_start");
        vstd::string::is_ascii_spec_bytes(s);
    }
    s.as_bytes()
}

/// Resolves the init metadata symbol locating the info area.
pub fn find_init_info_address(bytes: &[u8], image: &Image) -> (r: Result<u64, BootError>)
    ensures
        match crate::elf::spec_find_symbol(bytes@, image.sections@, spec_init_info_name()) {
            Some(v) => r matches Ok(a) && a == v,
            None => r matches Err(e) && e == BootError::SymbolNotFound,
        },
{
    crate::elf::find_address_from_symbol_name(bytes, image, init_info_symbol_name())
}

/// Resolves the init metadata symbol locating the IPC buffer.
pub fn find_init_ipc_address(bytes: &[u8], image: &Image) -> (r: Result<u64, BootError>)
    ensures
        match crate::elf::spec_find_symbol(bytes@, image.sections@, spec_init_ipc_name()) {
            Some(v) => r matches Ok(a) && a == v,
            None => r matches Err(e) && e == BootError::SymbolNotFound,
        },
{
    crate::elf::find_address_from_symbol_name(bytes, image, init_ipc_symbol_name())
}

/// What relocatable placement of the init image yields: reservations after
/// one any-address allocation sized to the load span and every LOAD
/// segment landed at the allocated base plus its declared address, and the
/// assembled record. An image whose span is broken is rejected as
/// malformed; both metadata symbols must resolve.
pub open spec fn spec_load_init(
    regions: Seq<RegionModel>,
    entry_point: u64,
    segments: Seq<ProgramSegment>,
    sections: Seq<crate::elf::SectionHeader>,
    s: Seq<u8>,
) -> Result<(Seq<RegionModel>, InitImageInfo), BootError> {
    let span = spec_load_span(segments);
    if span.1 > u64::MAX || span.1 < span.0 {
        Err(BootError::ParseError)
    } else {
        let total_pages = crate::util::spec_pages_rounded(span.1 - span.0);
        let base = spec_any_base(regions);
        if !(total_pages * 4096 <= usize::MAX && base + total_pages * 4096 <= u64::MAX) {
            Err(BootError::AllocationError)
        } else {
            match spec_materialize_all(
                regions.push(spec_fresh_region(base as u64, total_pages as u64)),
                segments,
                s,
                base as u64,
            ) {
                Err(e) => Err(e),
                Ok(rs) => match crate::elf::spec_find_symbol(s, sections, spec_init_info_name()) {
                    None => Err(BootError::SymbolNotFound),
                    Some(info) => match crate::elf::spec_find_symbol(
                        s,
                        sections,
                        spec_init_ipc_name(),
                    ) {
                        None => Err(BootError::SymbolNotFound),
                        Some(ipc) => Ok(
                            (
                                rs,
                                InitImageInfo {
                                    loaded_address: base as u64,
                                    init_image_pages: total_pages as u64,
                                    entry_point_virtual_address: entry_point,
                                    init_info_virtual_address: info,
                                    init_ipc_buffer_virtual_address: ipc,
                                },
                            ),
                        ),
                    },
                },
            }
        }
    }
}

/// Relocatable placement of the init image: computes the span covering all
/// LOAD segments, reserves one region of firmware-chosen base large enough
/// to hold it, lands every LOAD segment at that base plus its declared
/// address, resolves the two init metadata symbols against the parsed
/// image, and assembles the record for the downstream entry-transfer
/// stage. The first failure aborts the rest.
pub fn load_init_at_anywhere(
    init_image: &Image,
    init_bytes: &[u8],
    memory: &mut BootMemory,
) -> (r: Result<InitImageInfo, BootError>)
    requires
        old(memory).wf(),
    ensures
        final(memory).wf(),
        final(memory).unusable_tag_supported == old(memory).unusable_tag_supported,
        spec_extents_preserved(old(memory).regions_model(), final(memory).regions_model()),
        match spec_load_init(
            old(memory).regions_model(),
            init_image.entry_point,
            init_image.segments@,
            init_image.sections@,
            init_bytes@,
        ) {
            Ok(p) => r matches Ok(info) && info == p.1 && final(memory).regions_model() =~= p.0,
            Err(e) => r matches Err(e2) && e2 == e,
        },
{
    let span = calculate_load_span_physical_address(init_image)?;
    let (span_start, span_end) = span;
    if span_end < span_start {
        return Err(BootError::ParseError);
    }
    let total_bytes = span_end - span_start;
    let pages = crate::util::pages_for_bytes(total_bytes);
    let total_pages: u64 = if pages == 0 {
        1
    } else {
        pages
    };
    let base = memory.allocate_any(total_pages, MemoryTag::Reserved)?;
    materialize_load_segments(init_image, init_bytes, base, memory)?;
    let info_address = crate::elf::find_address_from_symbol_name(
        init_bytes,
        init_image,
        init_info_symbol_name(),
    )?;
    let ipc_address = crate::elf::find_address_from_symbol_name(
        init_bytes,
        init_image,
        init_ipc_symbol_name(),
    )?;
    Ok(
        InitImageInfo {
            loaded_address: base,
            init_image_pages: total_pages,
            entry_point_virtual_address: init_image.entry_point,
            init_info_virtual_address: info_address,
            init_ipc_buffer_virtual_address: ipc_address,
        },
    )
}

/// Landing segments never moves or resizes a reservation: it only
/// rewrites bytes inside one.
pub proof fn lemma_materialize_all_preserves_extents(
    regions: Seq<RegionModel>,
    segments: Seq<ProgramSegment>,
    s: Seq<u8>,
    physical_offset: u64,
)
    ensures
        spec_materialize_all(regions, segments, s, physical_offset) matches Ok(rs) ==> rs.len()
            == regions.len() && forall|j: int|
            0 <= j < regions.len() ==> (#[trigger] rs[j]).base == regions[j].base
                && rs[j].data.len() == regions[j].data.len(),
    decreases segments.len(),
{
    if segments.len() > 0 {
        match spec_materialize_segment(regions, segments.first(), s, physical_offset) {
            Ok(next) => {
                if !spec_segment_skipped(segments.first()) && spec_source_ok(segments.first(), s) {
                    crate::memory::lemma_region_containing_bounds(
                        regions,
                        spec_copy_dest(segments.first(), physical_offset),
                        spec_copy_span(segments.first()),
                        0,
                    );
                }
                lemma_materialize_all_preserves_extents(
                    next,
                    segments.drop_first(),
                    s,
                    physical_offset,
                );
            },
            Err(_) => {},
        }
    }
}

/// Exact-address placement only appends reservations: what was reserved
/// before stays, unchanged, at its index.
pub proof fn lemma_allocate_kernel_extends(
    regions: Seq<RegionModel>,
    segments: Seq<ProgramSegment>,
)
    ensures
        spec_allocate_kernel(regions, segments) matches Ok(rs) ==> rs.len() >= regions.len()
            && forall|j: int| 0 <= j < regions.len() ==> (#[trigger] rs[j]) == regions[j],
    decreases segments.len(),
{
    if segments.len() > 0 {
        match spec_allocate_segment(regions, segments.first()) {
            Ok(next) => {
                lemma_allocate_kernel_extends(next, segments.drop_first());
            },
            Err(_) => {},
        }
    }
}

/// The fresh regions the exact-address requests would hand out, in order.
pub open spec fn spec_regions_of_requests(requests: Seq<AllocationRequest>) -> Seq<RegionModel> {
    requests.map_values(
        |request: AllocationRequest|
            match request {
                AllocationRequest::Exact { physical_address, pages, .. } => spec_fresh_region(
                    physical_address,
                    pages,
                ),
                AllocationRequest::Any { pages, .. } => spec_fresh_region(0, pages),
            },
    )
}

/// The placement pipeline composes: running it over all segments is
/// running it over all but the last, then placing the last.
proof fn lemma_allocate_kernel_unsnoc(regions: Seq<RegionModel>, segments: Seq<ProgramSegment>)
    requires
        segments.len() > 0,
    ensures
        spec_allocate_kernel(regions, segments) == (match spec_allocate_kernel(
            regions,
            segments.drop_last(),
        ) {
            Ok(rs) => spec_allocate_segment(rs, segments.last()),
            Err(e) => Err(e),
        }),
    decreases segments.len(),
{
    if segments.len() == 1 {
        assert(segments.drop_last() =~= Seq::<ProgramSegment>::empty());
        assert(segments.drop_first() =~= Seq::<ProgramSegment>::empty());
        assert(spec_allocate_kernel(regions, segments.drop_last()) == Ok::<
            Seq<RegionModel>,
            BootError,
        >(regions));
        match spec_allocate_segment(regions, segments.first()) {
            Ok(next) => {
                assert(spec_allocate_kernel(next, segments.drop_first()) == Ok::<
                    Seq<RegionModel>,
                    BootError,
                >(next));
            },
            Err(_) => {},
        }
    } else {
        assert(segments.drop_last().first() == segments.first());
        match spec_allocate_segment(regions, segments.first()) {
            Ok(next) => {
                lemma_allocate_kernel_unsnoc(next, segments.drop_first());
                assert(segments.drop_first().drop_last() =~= segments.drop_last().drop_first());
                assert(segments.drop_first().last() == segments.last());
            },
            Err(_) => {},
        }
    }
}

/// Exact-address placement grants exactly the computed allocation
/// requests: when it succeeds, the reservations grow by one fresh region
/// per request of `spec_kernel_requests`, in order — an image with N LOAD
/// segments of nonzero `mem_size` yields exactly N new reservations, and
/// segments without backing memory yield none.
pub proof fn lemma_placement_grants_computed_requests(
    regions: Seq<RegionModel>,
    segments: Seq<ProgramSegment>,
)
    ensures
        spec_allocate_kernel(regions, segments) matches Ok(rs) ==> rs =~= regions
            + spec_regions_of_requests(spec_kernel_requests(segments)),
    decreases segments.len(),
{
    if segments.len() == 0 {
        assert(spec_allocate_kernel(regions, segments) == Ok::<_, BootError>(regions));
        assert(regions + spec_regions_of_requests(spec_kernel_requests(segments)) =~= regions);
    } else {
        lemma_allocate_kernel_unsnoc(regions, segments);
        lemma_placement_grants_computed_requests(regions, segments.drop_last());
        match spec_allocate_kernel(regions, segments) {
            Ok(rs) => {
                let prev = spec_allocate_kernel(regions, segments.drop_last())->Ok_0;
                let prefix = spec_regions_of_requests(
                    spec_kernel_requests(segments.drop_last()),
                );
                let seg = segments.last();
                if spec_is_load(seg) && seg.mem_size > 0 {
                    assert(rs =~= regions + prefix.push(
                        spec_fresh_region(
                            spec_masked_address(seg.physical_address),
                            spec_segment_pages(seg) as u64,
                        ),
                    ));
                    assert(spec_regions_of_requests(spec_kernel_requests(segments))
                        =~= prefix.push(
                        spec_fresh_region(
                            spec_masked_address(seg.physical_address),
                            spec_segment_pages(seg) as u64,
                        ),
                    ));
                } else {
                    assert(spec_kernel_requests(segments) == spec_kernel_requests(
                        segments.drop_last(),
                    ));
                }
            },
            Err(_) => {},
        }
    }
}

/// The span covers the extent of every LOAD segment.
pub proof fn lemma_load_span_end_bound(segments: Seq<ProgramSegment>, j: int)
    requires
        0 <= j < segments.len(),
        spec_is_load(segments[j]),
    ensures
        spec_load_span(segments).1 >= segments[j].physical_address + segments[j].mem_size,
        spec_load_span(segments).0 <= segments[j].physical_address,
    decreases segments.len(),
{
    if j < segments.len() - 1 {
        lemma_load_span_end_bound(segments.drop_last(), j);
        assert(segments.drop_last()[j] == segments[j]);
    }
}

} // verus!
