//! Image-loading core of a UEFI-stage boot loader: ELF64 parsing, physical
//! placement of kernel and init images, symbol resolution for init metadata,
//! and reservation of the low-memory multiprocessor trampoline page.
//!
//! The library is pure: firmware calls (file reads, page allocation, raw
//! physical writes) are performed by the surrounding program, which drives
//! the loader state machine and applies its actions. Physical memory handed
//! out by the allocator is modelled by explicit region handles with
//! bounds-checked writes.

pub mod bmp;
pub mod boot;
pub mod elf;
pub mod error;
pub mod loader;
pub mod memory;
pub mod util;
