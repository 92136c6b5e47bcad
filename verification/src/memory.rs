//! Physical-memory model: allocation requests, region handles carrying the
//! bytes the allocator handed out, and an explicit model of the firmware
//! allocator that tracks every reservation of a boot session.
//!
//! A region handle replaces unchecked address arithmetic: every write into
//! allocated memory is bounds-checked against the handle's extent.

use vstd::prelude::*;

use crate::error::BootError;

verus! {

/// Firmware memory tags the loader reserves pages under. Loaded images are
/// tagged `Reserved`; the trampoline page is first tried as `Unusable`,
/// since firmware implementations differ in which tag they accept for
/// addresses already described in their memory map.
#[derive(Clone, Copy, Debug, PartialEq, Eq, Structural)]
pub enum MemoryTag {
    Reserved,
    Unusable,
}

/// One request against the firmware allocator: pages at an exact physical
/// address, or pages anywhere the firmware chooses.
#[derive(Clone, Copy, Debug, PartialEq, Eq, Structural)]
pub enum AllocationRequest {
    Exact { physical_address: u64, pages: u64, tag: MemoryTag },
    Any { pages: u64, tag: MemoryTag },
}

/// Byte value filling freshly allocated model regions. Firmware does not
/// promise zeroed pages, so fresh memory carries a nonzero filler: a
/// materialization that forgot to clear its tail would be visible.
pub const FRESH_REGION_FILL: u8 = 0xA5;

/// Lowest base the model allocator hands out for an any-address request,
/// keeping firmware-chosen regions clear of conventional low memory.
pub const ANY_ALLOCATION_FLOOR: u64 = 0x10_0000;

/// Mathematical picture of one allocated region: its base address and its
/// byte contents.
pub ghost struct RegionModel {
    pub base: u64,
    pub data: Seq<u8>,
}

impl RegionModel {
    /// One-past-the-end address of the region.
    pub open spec fn end(&self) -> int {
        self.base + self.data.len()
    }

    /// The region's extent does not wrap the address space.
    pub open spec fn wf(&self) -> bool {
        self.base + self.data.len() <= u64::MAX
    }

    /// The byte range `[start, start + len)` lies inside the region.
    pub open spec fn contains_range(&self, start: int, len: int) -> bool {
        self.base <= start && start + len <= self.end()
    }
}

/// One contiguous range of physical memory held by the loader: its base
/// address and its bytes.
#[derive(Debug)]
pub struct MemoryRegion {
    pub base: u64,
    pub data: Vec<u8>,
}

impl View for MemoryRegion {
    type V = RegionModel;

    open spec fn view(&self) -> RegionModel {
        RegionModel { base: self.base, data: self.data@ }
    }
}

impl DeepView for MemoryRegion {
    type V = RegionModel;

    open spec fn deep_view(&self) -> RegionModel {
        self@
    }
}

impl MemoryRegion {
    /// A fresh region of `size` bytes at `base`, every byte `fill`.
    pub fn new_filled(base: u64, size: usize, fill: u8) -> (r: MemoryRegion)
        requires
            base + size <= u64::MAX,
        ensures
            r@.base == base,
            r@.data =~= Seq::new(size as nat, |i: int| fill),
            r@.wf(),
    {
        let mut data: Vec<u8> = Vec::new();
        let mut i: usize = 0;
        while i < size
            invariant
                i <= size,
                data@ =~= Seq::new(i as nat, |j: int| fill),
            decreases size - i,
        {
            data.push(fill);
            i = i + 1;
        }
        MemoryRegion { base, data }
    }
}

/// The byte range `[start, start + len)` overlaps no region of `regions`.
pub open spec fn spec_range_free(regions: Seq<RegionModel>, start: int, len: int) -> bool {
    forall|i: int|
        0 <= i < regions.len() ==> (start + len <= #[trigger] regions[i].base
            || regions[i].end() <= start)
}

/// All regions are well formed and pairwise disjoint.
pub open spec fn spec_regions_wf(regions: Seq<RegionModel>) -> bool {
    &&& forall|i: int| 0 <= i < regions.len() ==> (#[trigger] regions[i]).wf()
    &&& forall|i: int, j: int|
        0 <= i < regions.len() && 0 <= j < regions.len() && i != j ==> (
        #[trigger] regions[i].end() <= #[trigger] regions[j].base || regions[j].end()
            <= regions[i].base)
}

/// Largest one-past-the-end address over the regions, or zero for none.
pub open spec fn spec_regions_max_end(regions: Seq<RegionModel>) -> int
    decreases regions.len(),
{
    if regions.len() == 0 {
        0
    } else {
        let rest = spec_regions_max_end(regions.drop_last());
        if regions.last().end() > rest {
            regions.last().end()
        } else {
            rest
        }
    }
}

/// `x` rounded up to the next page boundary.
pub open spec fn spec_align_up_page(x: int) -> int {
    ((x + 4095) / 4096) * 4096
}

/// Base the model allocator picks for an any-address request: the first
/// page boundary past every existing region, no lower than the floor.
pub open spec fn spec_any_base(regions: Seq<RegionModel>) -> int {
    if spec_regions_max_end(regions) > ANY_ALLOCATION_FLOOR {
        spec_align_up_page(spec_regions_max_end(regions))
    } else {
        ANY_ALLOCATION_FLOOR as int
    }
}

/// The region a fresh reservation of `pages` pages at `base` hands out.
pub open spec fn spec_fresh_region(base: u64, pages: u64) -> RegionModel {
    RegionModel { base, data: Seq::new((pages * 4096) as nat, |i: int| FRESH_REGION_FILL) }
}

/// An exact reservation of `pages` pages at `physical_address` is granted
/// against `regions`, tag questions aside: the request is nonempty, its
/// extent fits the machine, and its range is still free.
pub open spec fn spec_exact_fits(regions: Seq<RegionModel>, physical_address: u64, pages: u64) -> bool {
    &&& pages > 0
    &&& pages * 4096 <= usize::MAX
    &&& physical_address + pages * 4096 <= u64::MAX
    &&& spec_range_free(regions, physical_address as int, pages * 4096)
}

/// Index of the first region containing the byte range, searching from `i`.
pub open spec fn spec_region_containing_from(
    regions: Seq<RegionModel>,
    start: int,
    len: int,
    i: int,
) -> Option<int>
    decreases regions.len() - i,
{
    if i < 0 || i >= regions.len() {
        None
    } else if regions[i].contains_range(start, len) {
        Some(i)
    } else {
        spec_region_containing_from(regions, start, len, i + 1)
    }
}

/// Index of the first region containing the byte range `[start, start+len)`.
pub open spec fn spec_region_containing(regions: Seq<RegionModel>, start: int, len: int) -> Option<
    int,
> {
    spec_region_containing_from(regions, start, len, 0)
}

/// Model of the firmware allocator and the memory it has handed out during
/// one boot session: every reservation is recorded, reservations never
/// overlap, and nothing is released. Whether the firmware accepts the
/// `Unusable` tag differs between implementations, so it is a parameter of
/// the model.
#[derive(Debug)]
pub struct BootMemory {
    pub regions: Vec<MemoryRegion>,
    pub unusable_tag_supported: bool,
}

impl BootMemory {
    /// The recorded reservations, as mathematical regions.
    pub open spec fn regions_model(&self) -> Seq<RegionModel> {
        self.regions.deep_view()
    }

    pub open spec fn wf(&self) -> bool {
        spec_regions_wf(self.regions_model())
    }

    /// The allocator accepts `tag` for a reservation.
    pub open spec fn spec_tag_accepted(&self, tag: MemoryTag) -> bool {
        tag == MemoryTag::Reserved || self.unusable_tag_supported
    }

    /// An exact request succeeds: the tag is accepted and the range fits.
    pub open spec fn spec_exact_ok(&self, physical_address: u64, pages: u64, tag: MemoryTag) -> bool {
        &&& self.spec_tag_accepted(tag)
        &&& spec_exact_fits(self.regions_model(), physical_address, pages)
    }

    /// A fresh session: nothing reserved yet.
    pub fn new(unusable_tag_supported: bool) -> (r: BootMemory)
        ensures
            r.regions_model() =~= Seq::<RegionModel>::empty(),
            r.unusable_tag_supported == unusable_tag_supported,
            r.wf(),
    {
        BootMemory { regions: Vec::new(), unusable_tag_supported }
    }

    /// Reserves `pages` pages at exactly `physical_address`, as the firmware
    /// does for an address-typed request: it fails exactly when the tag is
    /// rejected, the request is empty or overflows, or the range collides
    /// with memory already reserved.
    pub fn allocate_exact(&mut self, physical_address: u64, pages: u64, tag: MemoryTag) -> (r:
        Result<(), BootError>)
        requires
            old(self).wf(),
        ensures
            final(self).wf(),
            final(self).unusable_tag_supported == old(self).unusable_tag_supported,
            r is Ok <==> old(self).spec_exact_ok(physical_address, pages, tag),
            r matches Err(e) ==> e == BootError::AllocationError && final(self).regions_model()
                =~= old(self).regions_model(),
            r is Ok ==> final(self).regions_model() =~= old(self).regions_model().push(
                spec_fresh_region(physical_address, pages),
            ),
    {
        if !self.tag_accepted(tag) {
            return Err(BootError::AllocationError);
        }
        if pages == 0 || pages > (usize::MAX as u64) / 4096 {
            return Err(BootError::AllocationError);
        }
        let size = pages * 4096;
        if physical_address > u64::MAX - size {
            return Err(BootError::AllocationError);
        }
        if !self.range_free(physical_address, size) {
            return Err(BootError::AllocationError);
        }
        let region = MemoryRegion::new_filled(physical_address, size as usize, FRESH_REGION_FILL);
        self.regions.push(region);
        proof {
            assert(self.regions_model() =~= old(self).regions_model().push(
                spec_fresh_region(physical_address, pages),
            ));
        }
        Ok(())
    }

    /// Reserves `pages` pages at an address of the model's choosing, as the
    /// firmware does for an any-address request: the chosen base is the
    /// first free page boundary past everything reserved so far. It fails
    /// exactly when the tag is rejected, the request is empty, or the
    /// request does not fit the machine.
    pub fn allocate_any(&mut self, pages: u64, tag: MemoryTag) -> (r: Result<u64, BootError>)
        requires
            old(self).wf(),
        ensures
            final(self).wf(),
            final(self).unusable_tag_supported == old(self).unusable_tag_supported,
            r is Ok <==> old(self).spec_tag_accepted(tag) && pages > 0 && pages * 4096
                <= usize::MAX && spec_any_base(old(self).regions_model()) + pages * 4096
                <= u64::MAX,
            r matches Err(e) ==> e == BootError::AllocationError && final(self).regions_model()
                =~= old(self).regions_model(),
            r matches Ok(base) ==> base == spec_any_base(old(self).regions_model())
                && spec_range_free(old(self).regions_model(), base as int, pages * 4096)
                && final(self).regions_model() =~= old(self).regions_model().push(
                spec_fresh_region(base, pages),
            ),
    {
        if !self.tag_accepted(tag) {
            return Err(BootError::AllocationError);
        }
        if pages == 0 || pages > (usize::MAX as u64) / 4096 {
            return Err(BootError::AllocationError);
        }
        let size = pages * 4096;
        let max_end = self.regions_max_end();
        proof {
            lemma_regions_max_end_bounds(self.regions_model());
        }
        let base: u64 = if max_end > ANY_ALLOCATION_FLOOR {
            if max_end > u64::MAX - 4095 {
                proof {
                    lemma_align_up_page_ge(max_end as int);
                }
                return Err(BootError::AllocationError);
            }
            ((max_end + 4095) / 4096) * 4096
        } else {
            ANY_ALLOCATION_FLOOR
        };
        if base > u64::MAX - size {
            return Err(BootError::AllocationError);
        }
        proof {
            lemma_align_up_page_ge(max_end as int);
            assert(base >= max_end);
        }
        let region = MemoryRegion::new_filled(base, size as usize, FRESH_REGION_FILL);
        self.regions.push(region);
        proof {
            assert(self.regions_model() =~= old(self).regions_model().push(
                spec_fresh_region(base, pages),
            ));
        }
        Ok(base)
    }

    /// The tag check the model applies to every reservation.
    pub fn tag_accepted(&self, tag: MemoryTag) -> (r: bool)
        ensures
            r == self.spec_tag_accepted(tag),
    {
        match tag {
            MemoryTag::Reserved => true,
            MemoryTag::Unusable => self.unusable_tag_supported,
        }
    }

    /// Whether `[start, start + len)` overlaps none of the reservations.
    pub fn range_free(&self, start: u64, len: u64) -> (r: bool)
        requires
            self.wf(),
            start + len <= u64::MAX,
        ensures
            r == spec_range_free(self.regions_model(), start as int, len as int),
    {
        let n = self.regions.len();
        let mut i: usize = 0;
        while i < n
            invariant
                n == self.regions@.len(),
                i <= n,
                self.wf(),
                start + len <= u64::MAX,
                forall|j: int|
                    0 <= j < i ==> (start + len <= #[trigger] self.regions_model()[j].base
                        || self.regions_model()[j].end() <= start),
            decreases n - i,
        {
            proof {
                assert(self.regions_model()[i as int] == self.regions@[i as int]@);
                assert(self.regions_model()[i as int].wf());
            }
            let region = &self.regions[i];
            let region_end = region.base + region.data.len() as u64;
            if !(start + len <= region.base || region_end <= start) {
                return false;
            }
            i = i + 1;
        }
        true
    }

    /// Index of the first reservation containing `[start, start + len)`.
    pub fn region_index_containing(&self, start: u64, len: u64) -> (r: Option<usize>)
        requires
            self.wf(),
        ensures
            match spec_region_containing(self.regions_model(), start as int, len as int) {
                Some(idx) => r matches Some(e) && e == idx && 0 <= idx
                    < self.regions_model().len() && self.regions_model()[idx].contains_range(
                    start as int,
                    len as int,
                ),
                None => r is None,
            },
    {
        let n = self.regions.len();
        let mut i: usize = 0;
        while i < n
            invariant
                n == self.regions@.len(),
                i <= n,
                self.wf(),
                spec_region_containing(self.regions_model(), start as int, len as int)
                    == spec_region_containing_from(
                    self.regions_model(),
                    start as int,
                    len as int,
                    i as int,
                ),
            decreases n - i,
        {
            proof {
                assert(self.regions_model()[i as int] == self.regions@[i as int]@);
                assert(self.regions_model()[i as int].wf());
            }
            let region = &self.regions[i];
            let region_end = region.base + region.data.len() as u64;
            if region.base <= start && len <= region_end - region.base && start - region.base
                <= region_end - region.base - len {
                return Some(i);
            }
            i = i + 1;
        }
        None
    }

    /// Largest one-past-the-end address over the reservations so far.
    fn regions_max_end(&self) -> (r: u64)
        requires
            self.wf(),
        ensures
            r == spec_regions_max_end(self.regions_model()),
    {
        let n = self.regions.len();
        let mut max_end: u64 = 0;
        let mut i: usize = 0;
        while i < n
            invariant
                n == self.regions@.len(),
                i <= n,
                self.wf(),
                max_end == spec_regions_max_end(self.regions_model().take(i as int)),
            decreases n - i,
        {
            proof {
                assert(self.regions_model()[i as int] == self.regions@[i as int]@);
                assert(self.regions_model()[i as int].wf());
                assert(self.regions_model().take(i + 1).drop_last() =~= self.regions_model().take(
                    i as int,
                ));
                assert(self.regions_model().take(i + 1).last() == self.regions_model()[i as int]);
            }
            let region = &self.regions[i];
            let region_end = region.base + region.data.len() as u64;
            if region_end > max_end {
                max_end = region_end;
            }
            i = i + 1;
        }
        proof {
            assert(self.regions_model().take(n as int) =~= self.regions_model());
        }
        max_end
    }
}

/// Coarse classification of one memory range handed to the loaded kernel.
#[derive(Clone, Copy, Debug, PartialEq, Eq, Structural)]
pub enum MemoryMapType {
    Free,
    Device,
    Reserved,
}

/// One range of the firmware memory map, as handed to the loaded kernel.
#[derive(Clone, Copy, Debug, PartialEq, Eq, Structural)]
pub struct MemoryMapEntry {
    pub physical_address_start: usize,
    pub page_count: usize,
    pub memory_type: MemoryMapType,
}

/// The memory picture handed to the loaded kernel: total memory size and
/// the ranges of the firmware memory map.
#[derive(Debug, PartialEq, Eq)]
pub struct MemoryInfo {
    pub memory_size: usize,
    pub memory_map_count: u16,
    pub memory_map: Vec<MemoryMapEntry>,
}

/// Every reservation present before is still present at its index with
/// its extent: a later step may rewrite bytes inside one or append new
/// reservations, but never moves, resizes or releases one.
pub open spec fn spec_extents_preserved(
    before: Seq<RegionModel>,
    after: Seq<RegionModel>,
) -> bool {
    &&& after.len() >= before.len()
    &&& forall|j: int|
        0 <= j < before.len() ==> (#[trigger] after[j]).base == before[j].base
            && after[j].data.len() == before[j].data.len()
}

/// Some region has exactly the base address and byte length given.
pub open spec fn spec_contains_extent(regions: Seq<RegionModel>, base: u64, len: int) -> bool {
    exists|j: int|
        0 <= j < regions.len() && (#[trigger] regions[j]).base == base && regions[j].data.len()
            == len
}

/// A search that finds an index finds one in range, and it contains the
/// byte range searched for.
pub proof fn lemma_region_containing_bounds(
    regions: Seq<RegionModel>,
    start: int,
    len: int,
    i: int,
)
    requires
        0 <= i,
    ensures
        spec_region_containing_from(regions, start, len, i) matches Some(idx) ==> i <= idx
            < regions.len() && regions[idx].contains_range(start, len),
    decreases regions.len() - i,
{
    if i < regions.len() && !regions[i].contains_range(start, len) {
        lemma_region_containing_bounds(regions, start, len, i + 1);
    }
}

/// When no region contains the range, the search finds none.
pub proof fn lemma_region_containing_none(regions: Seq<RegionModel>, start: int, len: int, i: int)
    requires
        forall|j: int| 0 <= j < regions.len() ==> !(#[trigger] regions[j]).contains_range(start, len),
        0 <= i,
    ensures
        spec_region_containing_from(regions, start, len, i) is None,
    decreases regions.len() - i,
{
    if i < regions.len() {
        lemma_region_containing_none(regions, start, len, i + 1);
    }
}

/// Rounding up to a page boundary never rounds down.
pub proof fn lemma_align_up_page_ge(x: int)
    requires
        0 <= x,
    ensures
        x <= spec_align_up_page(x) < x + 4096,
{
    vstd::arithmetic::div_mod::lemma_fundamental_div_mod(x + 4095, 4096);
    vstd::arithmetic::div_mod::lemma_mod_division_less_than_divisor(x + 4095, 4096);
}

/// Every region ends at or before the maximum end.
pub proof fn lemma_regions_max_end_bounds(regions: Seq<RegionModel>)
    ensures
        forall|i: int|
            0 <= i < regions.len() ==> (#[trigger] regions[i]).end() <= spec_regions_max_end(
                regions,
            ),
    decreases regions.len(),
{
    if regions.len() > 0 {
        lemma_regions_max_end_bounds(regions.drop_last());
        assert forall|i: int| 0 <= i < regions.len() implies (#[trigger] regions[i]).end()
            <= spec_regions_max_end(regions) by {
            if i < regions.len() - 1 {
                assert(regions.drop_last()[i] == regions[i]);
            }
        }
    }
}

} // verus!
