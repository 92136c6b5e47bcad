//! Page-size arithmetic shared by every placement step.

use vstd::prelude::*;

verus! {

/// Size in bytes of one firmware page.
pub const EFI_PAGE_SIZE: usize = 4096;

/// High bit pattern carried by physical addresses of images linked against a
/// higher-half virtual layout; stripped to obtain the true physical target.
pub const HIGHER_HALF_MASK: u64 = 0xFFFF_8000_0000_0000;

/// Number of whole pages needed to hold `bytes` bytes: `ceil(bytes / 4096)`.
pub open spec fn spec_pages(bytes: int) -> int {
    (bytes + 4095) / 4096
}

/// Pages needed to back `bytes` bytes; zero only for zero bytes.
pub fn bytes_to_pages(bytes: usize) -> (pages: usize)
    ensures
        pages == spec_pages(bytes as int),
{
    if bytes == 0 {
        0
    } else {
        (bytes - 1) / EFI_PAGE_SIZE + 1
    }
}

/// Pages for an allocation request: as `bytes_to_pages`, but never zero,
/// since the firmware rejects empty allocations.
pub fn bytes_to_pages_rounded(bytes: usize) -> (pages: usize)
    ensures
        pages == spec_pages_rounded(bytes as int),
{
    let pages = bytes_to_pages(bytes);
    if pages == 0 {
        1
    } else {
        pages
    }
}

/// `spec_pages` with a floor of one page, used to size allocations.
pub open spec fn spec_pages_rounded(bytes: int) -> int {
    if spec_pages(bytes) == 0 {
        1
    } else {
        spec_pages(bytes)
    }
}

/// `bytes_to_pages` over the 64-bit quantities of the ELF headers.
pub fn pages_for_bytes(bytes: u64) -> (pages: u64)
    ensures
        pages == spec_pages(bytes as int),
{
    if bytes == 0 {
        0
    } else {
        (bytes - 1) / (EFI_PAGE_SIZE as u64) + 1
    }
}

} // verus!
