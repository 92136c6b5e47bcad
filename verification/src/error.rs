//! Error kinds surfaced by the loader, and the stages of the boot sequence
//! used to identify where a failure occurred.

use vstd::prelude::*;

verus! {

/// One failure kind per fallible collaborator: malformed binary, unreadable
/// file, unavailable physical range, absent init metadata symbol, and the
/// firmware running out of acceptable memory tags for the trampoline page.
#[derive(Clone, Copy, Debug, PartialEq, Eq, Structural)]
pub enum BootError {
    ParseError,
    IoError,
    AllocationError,
    SymbolNotFound,
    OutOfResources,
}

/// The steps of the boot sequence, in order; a failure report names the step
/// that produced it.
#[derive(Clone, Copy, Debug, PartialEq, Eq, Structural)]
pub enum Stage {
    ReadKernelBytes,
    ParseKernel,
    PlaceKernelExact,
    CopyKernelSegments,
    RecordKernelEntry,
    ReserveApTrampoline,
    ReadInitBytes,
    ParseInit,
    ComputeInitSpan,
    AllocateInitRegion,
    CopyInitSegments,
    ResolveInitSymbols,
}

/// A failed boot: the first error met, and the stage that met it.
#[derive(Clone, Copy, Debug, PartialEq, Eq, Structural)]
pub struct BootFailure {
    pub stage: Stage,
    pub error: BootError,
}

} // verus!
