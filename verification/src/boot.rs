//! Boot orchestration: the full two-image load as one verified sequence
//! against the explicit memory model, and the loader state machine an
//! embedding program drives against real firmware.
//!
//! The sequence is a single forward path with no retries and no rollback:
//! the first failure aborts every later step and is reported with the
//! stage that met it.

use vstd::prelude::*;

use crate::elf::{
    Image, ProgramSegment, parse_elf, spec_entry_point, spec_find_symbol, spec_is_image_of,
    spec_parse_ok, spec_sections_of, spec_segments_of,
};
use crate::error::{BootError, BootFailure, Stage};
use crate::loader::{
    AP_TRAMPOLINE_BASE, CopyCommand, InitImageInfo, allocate_kernel_segments,
    copy_commands_for_segments, kernel_allocation_requests, lemma_allocate_kernel_extends,
    lemma_materialize_all_preserves_extents, materialize_load_segments, reserve_ap_trampoline,
    spec_allocate_kernel, spec_copy_commands, spec_init_info_name, spec_init_ipc_name,
    spec_kernel_requests, spec_load_span, spec_materialize_all,
};
use crate::memory::{
    AllocationRequest, BootMemory, MemoryTag, RegionModel, spec_any_base, spec_contains_extent,
    spec_exact_fits, spec_extents_preserved, spec_fresh_region,
};
use crate::util::spec_pages_rounded;

verus! {

/// What a successful boot hands to the downstream entry-transfer stage:
/// the kernel entry point and the init image record.
#[derive(Clone, Copy, Debug, PartialEq, Eq, Structural)]
pub struct BootOutcome {
    pub kernel_entry_point: u64,
    pub init: InitImageInfo,
}

/// The reservations and outcome of the full boot sequence over the two
/// image buffers, or the first failure with its stage: parse the kernel,
/// reserve and land its segments at their own stripped addresses, reserve
/// the trampoline page, parse init, reserve one firmware-chosen region
/// covering its span, land its segments there, and resolve its metadata
/// symbols.
pub open spec fn spec_run(regions: Seq<RegionModel>, kernel: Seq<u8>, init: Seq<u8>) -> Result<
    (Seq<RegionModel>, BootOutcome),
    BootFailure,
> {
    if !spec_parse_ok(kernel) {
        Err(BootFailure { stage: Stage::ParseKernel, error: BootError::ParseError })
    } else {
        let ksegs = spec_segments_of(kernel);
        match spec_allocate_kernel(regions, ksegs) {
            Err(e) => Err(BootFailure { stage: Stage::PlaceKernelExact, error: e }),
            Ok(r1) => match spec_materialize_all(r1, ksegs, kernel, 0) {
                Err(e) => Err(BootFailure { stage: Stage::CopyKernelSegments, error: e }),
                Ok(r2) => if !spec_exact_fits(r2, AP_TRAMPOLINE_BASE, 1) {
                    Err(
                        BootFailure {
                            stage: Stage::ReserveApTrampoline,
                            error: BootError::OutOfResources,
                        },
                    )
                } else {
                    spec_run_init(
                        r2.push(spec_fresh_region(AP_TRAMPOLINE_BASE, 1)),
                        spec_entry_point(kernel),
                        init,
                    )
                },
            },
        }
    }
}

/// The init half of the boot sequence, entered with the kernel already
/// placed and the trampoline page reserved.
pub open spec fn spec_run_init(regions: Seq<RegionModel>, kernel_entry: u64, init: Seq<u8>) -> Result<
    (Seq<RegionModel>, BootOutcome),
    BootFailure,
> {
    if !spec_parse_ok(init) {
        Err(BootFailure { stage: Stage::ParseInit, error: BootError::ParseError })
    } else {
        let segments = spec_segments_of(init);
        let span = spec_load_span(segments);
        if span.1 > u64::MAX || span.1 < span.0 {
            Err(BootFailure { stage: Stage::ComputeInitSpan, error: BootError::ParseError })
        } else {
            let total_pages = spec_pages_rounded(span.1 - span.0);
            let base = spec_any_base(regions);
            if !(total_pages * 4096 <= usize::MAX && base + total_pages * 4096 <= u64::MAX) {
                Err(
                    BootFailure {
                        stage: Stage::AllocateInitRegion,
                        error: BootError::AllocationError,
                    },
                )
            } else {
                match spec_materialize_all(
                    regions.push(spec_fresh_region(base as u64, total_pages as u64)),
                    segments,
                    init,
                    base as u64,
                ) {
                    Err(e) => Err(BootFailure { stage: Stage::CopyInitSegments, error: e }),
                    Ok(rs) => match spec_find_symbol(
                        init,
                        spec_sections_of(init),
                        spec_init_info_name(),
                    ) {
                        None => Err(
                            BootFailure {
                                stage: Stage::ResolveInitSymbols,
                                error: BootError::SymbolNotFound,
                            },
                        ),
                        Some(info) => match spec_find_symbol(
                            init,
                            spec_sections_of(init),
                            spec_init_ipc_name(),
                        ) {
                            None => Err(
                                BootFailure {
                                    stage: Stage::ResolveInitSymbols,
                                    error: BootError::SymbolNotFound,
                                },
                            ),
                            Some(ipc) => Ok(
                                (
                                    rs,
                                    BootOutcome {
                                        kernel_entry_point: kernel_entry,
                                        init: InitImageInfo {
                                            loaded_address: base as u64,
                                            init_image_pages: total_pages as u64,
                                            entry_point_virtual_address: spec_entry_point(init),
                                            init_info_virtual_address: info,
                                            init_ipc_buffer_virtual_address: ipc,
                                        },
                                    },
                                ),
                            ),
                        },
                    },
                }
            }
        }
    }
}

/// Runs the full boot sequence against the explicit memory model: loads
/// the kernel at its own addresses, reserves the trampoline page, loads
/// init at a firmware-chosen base, and resolves its metadata symbols. The
/// first failure aborts all later steps and is returned with its stage;
/// reservations already made are never rolled back.
pub fn run(kernel_bytes: &[u8], init_bytes: &[u8], memory: &mut BootMemory) -> (r: Result<
    BootOutcome,
    BootFailure,
>)
    requires
        old(memory).wf(),
    ensures
        final(memory).wf(),
        final(memory).unusable_tag_supported == old(memory).unusable_tag_supported,
        spec_extents_preserved(old(memory).regions_model(), final(memory).regions_model()),
        match spec_run(old(memory).regions_model(), kernel_bytes@, init_bytes@) {
            Ok(p) => r matches Ok(outcome) && outcome == p.1 && final(memory).regions_model()
                =~= p.0,
            Err(f) => r matches Err(f2) && f2 == f,
        },
{
    let kernel_image = match parse_elf(kernel_bytes) {
        Ok(image) => image,
        Err(e) => {
            return Err(BootFailure { stage: Stage::ParseKernel, error: e });
        },
    };
    if let Err(e) = allocate_kernel_segments(&kernel_image, memory) {
        return Err(BootFailure { stage: Stage::PlaceKernelExact, error: e });
    }
    if let Err(e) = materialize_load_segments(&kernel_image, kernel_bytes, 0, memory) {
        return Err(BootFailure { stage: Stage::CopyKernelSegments, error: e });
    }
    let kernel_entry_point = kernel_image.entry_point;
    if let Err(e) = reserve_ap_trampoline(memory) {
        return Err(BootFailure { stage: Stage::ReserveApTrampoline, error: e });
    }
    let init_image = match parse_elf(init_bytes) {
        Ok(image) => image,
        Err(e) => {
            return Err(BootFailure { stage: Stage::ParseInit, error: e });
        },
    };
    let span = match crate::loader::calculate_load_span_physical_address(&init_image) {
        Ok(p) => p,
        Err(e) => {
            return Err(BootFailure { stage: Stage::ComputeInitSpan, error: e });
        },
    };
    let (span_start, span_end) = span;
    if span_end < span_start {
        return Err(
            BootFailure { stage: Stage::ComputeInitSpan, error: BootError::ParseError },
        );
    }
    let total_bytes = span_end - span_start;
    let pages = crate::util::pages_for_bytes(total_bytes);
    let total_pages: u64 = if pages == 0 {
        1
    } else {
        pages
    };
    let base = match memory.allocate_any(total_pages, MemoryTag::Reserved) {
        Ok(base) => base,
        Err(e) => {
            return Err(BootFailure { stage: Stage::AllocateInitRegion, error: e });
        },
    };
    if let Err(e) = materialize_load_segments(&init_image, init_bytes, base, memory) {
        return Err(BootFailure { stage: Stage::CopyInitSegments, error: e });
    }
    let info_address = match crate::loader::find_init_info_address(init_bytes, &init_image) {
        Ok(a) => a,
        Err(e) => {
            return Err(BootFailure { stage: Stage::ResolveInitSymbols, error: e });
        },
    };
    let ipc_address = match crate::loader::find_init_ipc_address(init_bytes, &init_image) {
        Ok(a) => a,
        Err(e) => {
            return Err(BootFailure { stage: Stage::ResolveInitSymbols, error: e });
        },
    };
    Ok(
        BootOutcome {
            kernel_entry_point,
            init: InitImageInfo {
                loaded_address: base,
                init_image_pages: total_pages,
                entry_point_virtual_address: init_image.entry_point,
                init_info_virtual_address: info_address,
                init_ipc_buffer_virtual_address: ipc_address,
            },
        },
    )
}

/// One piece of outside work the loader asks its embedding program for:
/// read one of the two well-known image files, reserve pages, or write one
/// segment's bytes into reserved memory (from the kernel or the init file,
/// whichever was read last).
#[derive(Clone, Copy, Debug, PartialEq, Eq, Structural)]
pub enum LoaderAction {
    ReadKernelFile,
    ReadInitFile,
    Allocate(AllocationRequest),
    WriteKernelSegment(CopyCommand),
    WriteInitSegment(CopyCommand),
}

/// What the outside work came back with.
#[derive(Debug)]
pub enum LoaderEvent {
    FileRead(Vec<u8>),
    FileUnreadable,
    AllocationGranted(u64),
    AllocationDenied,
    WriteDone,
    WriteRejected,
}

/// Where the boot sequence stands. The embedding program performs the
/// pending action of the current state and feeds the outcome back through
/// `advance`; `Done` and `Failed` are terminal.
#[derive(Debug)]
pub enum LoaderState {
    LoadKernelFile,
    PlaceKernel {
        kernel_entry: u64,
        kernel_bytes: Vec<u8>,
        segments: Vec<ProgramSegment>,
        requests: Vec<AllocationRequest>,
        next_request: usize,
    },
    CopyKernel { kernel_entry: u64, commands: Vec<CopyCommand>, next_command: usize },
    ReserveTrampolineFirst { kernel_entry: u64 },
    ReserveTrampolineSecond { kernel_entry: u64 },
    LoadInitFile { kernel_entry: u64 },
    AllocateInit { kernel_entry: u64, init_bytes: Vec<u8>, init_image: Image, total_pages: u64 },
    CopyInit {
        kernel_entry: u64,
        init_bytes: Vec<u8>,
        init_image: Image,
        base: u64,
        total_pages: u64,
        commands: Vec<CopyCommand>,
        next_command: usize,
    },
    Done { outcome: BootOutcome },
    Failed { failure: BootFailure },
}

/// The state a boot sequence starts in.
pub fn initial_state() -> (r: LoaderState)
    ensures
        r == LoaderState::LoadKernelFile,
{
    LoaderState::LoadKernelFile
}

/// The outside work the current state waits for; nothing once the
/// sequence is done or failed.
pub fn next_action(state: &LoaderState) -> (r: Option<LoaderAction>)
    ensures
        state is LoadKernelFile ==> r == Some(LoaderAction::ReadKernelFile),
        state matches LoaderState::PlaceKernel { requests, next_request, .. } ==> r == (
        if next_request < requests@.len() {
            Some(LoaderAction::Allocate(requests@[next_request as int]))
        } else {
            None::<LoaderAction>
        }),
        state matches LoaderState::CopyKernel { commands, next_command, .. } ==> r == (
        if next_command < commands@.len() {
            Some(LoaderAction::WriteKernelSegment(commands@[next_command as int]))
        } else {
            None::<LoaderAction>
        }),
        state matches LoaderState::ReserveTrampolineFirst { .. } ==> r == Some(
            LoaderAction::Allocate(
                AllocationRequest::Exact {
                    physical_address: AP_TRAMPOLINE_BASE,
                    pages: 1,
                    tag: MemoryTag::Unusable,
                },
            ),
        ),
        state matches LoaderState::ReserveTrampolineSecond { .. } ==> r == Some(
            LoaderAction::Allocate(
                AllocationRequest::Exact {
                    physical_address: AP_TRAMPOLINE_BASE,
                    pages: 1,
                    tag: MemoryTag::Reserved,
                },
            ),
        ),
        state matches LoaderState::LoadInitFile { .. } ==> r == Some(LoaderAction::ReadInitFile),
        state matches LoaderState::AllocateInit { total_pages, .. } ==> r == Some(
            LoaderAction::Allocate(
                AllocationRequest::Any { pages: *total_pages, tag: MemoryTag::Reserved },
            ),
        ),
        state matches LoaderState::CopyInit { commands, next_command, .. } ==> r == (
        if next_command < commands@.len() {
            Some(LoaderAction::WriteInitSegment(commands@[next_command as int]))
        } else {
            None::<LoaderAction>
        }),
        state is Done ==> r is None,
        state is Failed ==> r is None,
{
    match state {
        LoaderState::LoadKernelFile => Some(LoaderAction::ReadKernelFile),
        LoaderState::PlaceKernel { requests, next_request, .. } => {
            if *next_request < requests.len() {
                Some(LoaderAction::Allocate(requests[*next_request]))
            } else {
                None
            }
        },
        LoaderState::CopyKernel { commands, next_command, .. } => {
            if *next_command < commands.len() {
                Some(LoaderAction::WriteKernelSegment(commands[*next_command]))
            } else {
                None
            }
        },
        LoaderState::ReserveTrampolineFirst { .. } => Some(
            LoaderAction::Allocate(
                AllocationRequest::Exact {
                    physical_address: AP_TRAMPOLINE_BASE,
                    pages: 1,
                    tag: MemoryTag::Unusable,
                },
            ),
        ),
        LoaderState::ReserveTrampolineSecond { .. } => Some(
            LoaderAction::Allocate(
                AllocationRequest::Exact {
                    physical_address: AP_TRAMPOLINE_BASE,
                    pages: 1,
                    tag: MemoryTag::Reserved,
                },
            ),
        ),
        LoaderState::LoadInitFile { .. } => Some(LoaderAction::ReadInitFile),
        LoaderState::AllocateInit { total_pages, .. } => Some(
            LoaderAction::Allocate(
                AllocationRequest::Any { pages: *total_pages, tag: MemoryTag::Reserved },
            ),
        ),
        LoaderState::CopyInit { commands, next_command, .. } => {
            if *next_command < commands.len() {
                Some(LoaderAction::WriteInitSegment(commands[*next_command]))
            } else {
                None
            }
        },
        LoaderState::Done { .. } => None,
        LoaderState::Failed { .. } => None,
    }
}

/// The state that begins the kernel copy phase, given the entry point and
/// segment table of the parsed kernel: copying, straight to the trampoline
/// reservation when nothing needs copying, or failure when a destination
/// window does not fit the address space.
pub open spec fn spec_copy_kernel_state(
    result: LoaderState,
    entry: u64,
    b: Seq<u8>,
    segs: Seq<ProgramSegment>,
) -> bool {
    match spec_copy_commands(segs, b, 0) {
        Err(e) => result == (LoaderState::Failed {
            failure: BootFailure { stage: Stage::CopyKernelSegments, error: e },
        }),
        Ok(cmds) => if cmds.len() > 0 {
            result matches LoaderState::CopyKernel { kernel_entry, commands, next_command }
                && kernel_entry == entry && commands@ == cmds && next_command == 0
        } else {
            result == (LoaderState::ReserveTrampolineFirst { kernel_entry: entry })
        },
    }
}

/// The state that follows receipt of the kernel image bytes: placement of
/// its segments, or the copy phase when none needs backing memory, or
/// failure on a malformed buffer.
pub open spec fn spec_kernel_bytes_state(result: LoaderState, b: Seq<u8>) -> bool {
    if !spec_parse_ok(b) {
        result == (LoaderState::Failed {
            failure: BootFailure { stage: Stage::ParseKernel, error: BootError::ParseError },
        })
    } else {
        let segs = spec_segments_of(b);
        let reqs = spec_kernel_requests(segs);
        if reqs.len() > 0 {
            result matches LoaderState::PlaceKernel {
                kernel_entry,
                kernel_bytes,
                segments,
                requests,
                next_request,
            } && kernel_entry == spec_entry_point(b) && kernel_bytes@ == b && segments@ == segs
                && requests@ == reqs && next_request == 0
        } else {
            spec_copy_kernel_state(result, spec_entry_point(b), b, segs)
        }
    }
}

/// The state that follows receipt of the init image bytes: waiting for the
/// one any-address allocation, or failure on a malformed buffer or a
/// broken load span.
pub open spec fn spec_init_bytes_state(result: LoaderState, entry: u64, b: Seq<u8>) -> bool {
    if !spec_parse_ok(b) {
        result == (LoaderState::Failed {
            failure: BootFailure { stage: Stage::ParseInit, error: BootError::ParseError },
        })
    } else {
        let span = spec_load_span(spec_segments_of(b));
        if span.1 > u64::MAX || span.1 < span.0 {
            result == (LoaderState::Failed {
                failure: BootFailure { stage: Stage::ComputeInitSpan, error: BootError::ParseError },
            })
        } else {
            result matches LoaderState::AllocateInit {
                kernel_entry,
                init_bytes,
                init_image,
                total_pages,
            } && kernel_entry == entry && init_bytes@ == b && spec_is_image_of(init_image, b)
                && total_pages == spec_pages_rounded(span.1 - span.0)
        }
    }
}

/// The terminal state of the sequence: the assembled outcome when both
/// init metadata symbols resolve, failure otherwise.
pub open spec fn spec_finish_state(
    result: LoaderState,
    entry: u64,
    b: Seq<u8>,
    img: Image,
    base: u64,
    pages: u64,
) -> bool {
    match spec_find_symbol(b, img.sections@, spec_init_info_name()) {
        None => result == (LoaderState::Failed {
            failure: BootFailure {
                stage: Stage::ResolveInitSymbols,
                error: BootError::SymbolNotFound,
            },
        }),
        Some(info) => match spec_find_symbol(b, img.sections@, spec_init_ipc_name()) {
            None => result == (LoaderState::Failed {
                failure: BootFailure {
                    stage: Stage::ResolveInitSymbols,
                    error: BootError::SymbolNotFound,
                },
            }),
            Some(ipc) => result == (LoaderState::Done {
                outcome: BootOutcome {
                    kernel_entry_point: entry,
                    init: InitImageInfo {
                        loaded_address: base,
                        init_image_pages: pages,
                        entry_point_virtual_address: img.entry_point,
                        init_info_virtual_address: info,
                        init_ipc_buffer_virtual_address: ipc,
                    },
                },
            }),
        },
    }
}

/// The state that begins the init copy phase: copying, the finish when
/// nothing needs copying, or failure when a destination window does not
/// fit the address space.
pub open spec fn spec_copy_init_state(
    result: LoaderState,
    entry: u64,
    b: Seq<u8>,
    img: Image,
    base: u64,
    pages: u64,
) -> bool {
    match spec_copy_commands(img.segments@, b, base) {
        Err(e) => result == (LoaderState::Failed {
            failure: BootFailure { stage: Stage::CopyInitSegments, error: e },
        }),
        Ok(cmds) => if cmds.len() > 0 {
            result matches LoaderState::CopyInit {
                kernel_entry,
                init_bytes,
                init_image,
                base: b2,
                total_pages,
                commands,
                next_command,
            } && kernel_entry == entry && init_bytes@ == b && init_image == img && b2 == base
                && total_pages == pages && commands@ == cmds && next_command == 0
        } else {
            spec_finish_state(result, entry, b, img, base, pages)
        },
    }
}

fn enter_copy_kernel(kernel_entry: u64, bytes: &Vec<u8>, segments: &Vec<ProgramSegment>) -> (r:
    LoaderState)
    ensures
        spec_copy_kernel_state(r, kernel_entry, bytes@, segments@),
{
    match copy_commands_for_segments(segments, bytes.as_slice(), 0) {
        Err(e) => LoaderState::Failed {
            failure: BootFailure { stage: Stage::CopyKernelSegments, error: e },
        },
        Ok(commands) => if commands.len() > 0 {
            LoaderState::CopyKernel { kernel_entry, commands, next_command: 0 }
        } else {
            LoaderState::ReserveTrampolineFirst { kernel_entry }
        },
    }
}

fn after_kernel_bytes(bytes: Vec<u8>) -> (r: LoaderState)
    ensures
        spec_kernel_bytes_state(r, bytes@),
{
    let image = match parse_elf(bytes.as_slice()) {
        Ok(image) => image,
        Err(_) => {
            return LoaderState::Failed {
                failure: BootFailure { stage: Stage::ParseKernel, error: BootError::ParseError },
            };
        },
    };
    let requests = kernel_allocation_requests(&image);
    if requests.len() > 0 {
        LoaderState::PlaceKernel {
            kernel_entry: image.entry_point,
            kernel_bytes: bytes,
            segments: image.segments,
            requests,
            next_request: 0,
        }
    } else {
        enter_copy_kernel(image.entry_point, &bytes, &image.segments)
    }
}

fn after_init_bytes(kernel_entry: u64, bytes: Vec<u8>) -> (r: LoaderState)
    ensures
        spec_init_bytes_state(r, kernel_entry, bytes@),
{
    let image = match parse_elf(bytes.as_slice()) {
        Ok(image) => image,
        Err(_) => {
            return LoaderState::Failed {
                failure: BootFailure { stage: Stage::ParseInit, error: BootError::ParseError },
            };
        },
    };
    let span = match crate::loader::calculate_load_span_physical_address(&image) {
        Ok(p) => p,
        Err(_) => {
            return LoaderState::Failed {
                failure: BootFailure {
                    stage: Stage::ComputeInitSpan,
                    error: BootError::ParseError,
                },
            };
        },
    };
    let (span_start, span_end) = span;
    if span_end < span_start {
        return LoaderState::Failed {
            failure: BootFailure { stage: Stage::ComputeInitSpan, error: BootError::ParseError },
        };
    }
    let pages = crate::util::pages_for_bytes(span_end - span_start);
    let total_pages: u64 = if pages == 0 {
        1
    } else {
        pages
    };
    LoaderState::AllocateInit { kernel_entry, init_bytes: bytes, init_image: image, total_pages }
}

fn finish_init(
    kernel_entry: u64,
    init_bytes: &Vec<u8>,
    init_image: &Image,
    base: u64,
    total_pages: u64,
) -> (r: LoaderState)
    ensures
        spec_finish_state(r, kernel_entry, init_bytes@, *init_image, base, total_pages),
{
    let info_address = match crate::loader::find_init_info_address(
        init_bytes.as_slice(),
        init_image,
    ) {
        Ok(a) => a,
        Err(_) => {
            return LoaderState::Failed {
                failure: BootFailure {
                    stage: Stage::ResolveInitSymbols,
                    error: BootError::SymbolNotFound,
                },
            };
        },
    };
    let ipc_address = match crate::loader::find_init_ipc_address(
        init_bytes.as_slice(),
        init_image,
    ) {
        Ok(a) => a,
        Err(_) => {
            return LoaderState::Failed {
                failure: BootFailure {
                    stage: Stage::ResolveInitSymbols,
                    error: BootError::SymbolNotFound,
                },
            };
        },
    };
    LoaderState::Done {
        outcome: BootOutcome {
            kernel_entry_point: kernel_entry,
            init: InitImageInfo {
                loaded_address: base,
                init_image_pages: total_pages,
                entry_point_virtual_address: init_image.entry_point,
                init_info_virtual_address: info_address,
                init_ipc_buffer_virtual_address: ipc_address,
            },
        },
    }
}

fn enter_copy_init(
    kernel_entry: u64,
    init_bytes: Vec<u8>,
    init_image: Image,
    base: u64,
    total_pages: u64,
) -> (r: LoaderState)
    ensures
        spec_copy_init_state(r, kernel_entry, init_bytes@, init_image, base, total_pages),
{
    match copy_commands_for_segments(&init_image.segments, init_bytes.as_slice(), base) {
        Err(e) => LoaderState::Failed {
            failure: BootFailure { stage: Stage::CopyInitSegments, error: e },
        },
        Ok(commands) => if commands.len() > 0 {
            LoaderState::CopyInit {
                kernel_entry,
                init_bytes,
                init_image,
                base,
                total_pages,
                commands,
                next_command: 0,
            }
        } else {
            finish_init(kernel_entry, &init_bytes, &init_image, base, total_pages)
        },
    }
}

/// Feeds the outcome of the last action into the machine and yields the
/// next state. A terminal state, or an event that does not answer the
/// pending action, leaves the state unchanged.
pub fn advance(state: LoaderState, event: LoaderEvent) -> (r: LoaderState)
    ensures
        state is LoadKernelFile ==> (match event {
            LoaderEvent::FileRead(b) => spec_kernel_bytes_state(r, b@),
            LoaderEvent::FileUnreadable => r == (LoaderState::Failed {
                failure: BootFailure { stage: Stage::ReadKernelBytes, error: BootError::IoError },
            }),
            _ => r == state,
        }),
        state matches LoaderState::PlaceKernel {
            kernel_entry,
            kernel_bytes,
            segments,
            requests,
            next_request,
        } ==> (match event {
            LoaderEvent::AllocationGranted(_) => if next_request < requests@.len() - 1 {
                r matches LoaderState::PlaceKernel {
                    kernel_entry: e2,
                    kernel_bytes: b2,
                    segments: s2,
                    requests: r2,
                    next_request: n2,
                } && e2 == kernel_entry && b2@ == kernel_bytes@ && s2@ == segments@ && r2@
                    == requests@ && n2 == next_request + 1
            } else {
                spec_copy_kernel_state(r, kernel_entry, kernel_bytes@, segments@)
            },
            LoaderEvent::AllocationDenied => r == (LoaderState::Failed {
                failure: BootFailure {
                    stage: Stage::PlaceKernelExact,
                    error: BootError::AllocationError,
                },
            }),
            _ => r == state,
        }),
        state matches LoaderState::CopyKernel { kernel_entry, commands, next_command } ==> (
        match event {
            LoaderEvent::WriteDone => if next_command < commands@.len() - 1 {
                r matches LoaderState::CopyKernel {
                    kernel_entry: e2,
                    commands: c2,
                    next_command: n2,
                } && e2 == kernel_entry && c2@ == commands@ && n2 == next_command + 1
            } else {
                r == (LoaderState::ReserveTrampolineFirst { kernel_entry: kernel_entry })
            },
            LoaderEvent::WriteRejected => r == (LoaderState::Failed {
                failure: BootFailure {
                    stage: Stage::CopyKernelSegments,
                    error: BootError::AllocationError,
                },
            }),
            _ => r == state,
        }),
        state matches LoaderState::ReserveTrampolineFirst { kernel_entry } ==> (match event {
            LoaderEvent::AllocationGranted(_) => r == (LoaderState::LoadInitFile {
                kernel_entry: kernel_entry,
            }),
            LoaderEvent::AllocationDenied => r == (LoaderState::ReserveTrampolineSecond {
                kernel_entry: kernel_entry,
            }),
            _ => r == state,
        }),
        state matches LoaderState::ReserveTrampolineSecond { kernel_entry } ==> (match event {
            LoaderEvent::AllocationGranted(_) => r == (LoaderState::LoadInitFile {
                kernel_entry: kernel_entry,
            }),
            LoaderEvent::AllocationDenied => r == (LoaderState::Failed {
                failure: BootFailure {
                    stage: Stage::ReserveApTrampoline,
                    error: BootError::OutOfResources,
                },
            }),
            _ => r == state,
        }),
        state matches LoaderState::LoadInitFile { kernel_entry } ==> (match event {
            LoaderEvent::FileRead(b) => spec_init_bytes_state(r, kernel_entry, b@),
            LoaderEvent::FileUnreadable => r == (LoaderState::Failed {
                failure: BootFailure { stage: Stage::ReadInitBytes, error: BootError::IoError },
            }),
            _ => r == state,
        }),
        state matches LoaderState::AllocateInit { kernel_entry, init_bytes, init_image, total_pages }
            ==> (match event {
            LoaderEvent::AllocationGranted(base) => spec_copy_init_state(
                r,
                kernel_entry,
                init_bytes@,
                init_image,
                base,
                total_pages,
            ),
            LoaderEvent::AllocationDenied => r == (LoaderState::Failed {
                failure: BootFailure {
                    stage: Stage::AllocateInitRegion,
                    error: BootError::AllocationError,
                },
            }),
            _ => r == state,
        }),
        state matches LoaderState::CopyInit {
            kernel_entry,
            init_bytes,
            init_image,
            base,
            total_pages,
            commands,
            next_command,
        } ==> (match event {
            LoaderEvent::WriteDone => if next_command < commands@.len() - 1 {
                r matches LoaderState::CopyInit {
                    kernel_entry: e2,
                    init_bytes: b2,
                    init_image: i2,
                    base: a2,
                    total_pages: p2,
                    commands: c2,
                    next_command: n2,
                } && e2 == kernel_entry && b2@ == init_bytes@ && i2 == init_image && a2 == base
                    && p2 == total_pages && c2@ == commands@ && n2 == next_command + 1
            } else {
                spec_finish_state(
                    r,
                    kernel_entry,
                    init_bytes@,
                    init_image,
                    base,
                    total_pages,
                )
            },
            LoaderEvent::WriteRejected => r == (LoaderState::Failed {
                failure: BootFailure {
                    stage: Stage::CopyInitSegments,
                    error: BootError::AllocationError,
                },
            }),
            _ => r == state,
        }),
        state is Done ==> r == state,
        state is Failed ==> r == state,
{
    match (state, event) {
        (LoaderState::LoadKernelFile, LoaderEvent::FileRead(bytes)) => after_kernel_bytes(bytes),
        (LoaderState::LoadKernelFile, LoaderEvent::FileUnreadable) => LoaderState::Failed {
            failure: BootFailure { stage: Stage::ReadKernelBytes, error: BootError::IoError },
        },
        (
            LoaderState::PlaceKernel { kernel_entry, kernel_bytes, segments, requests, next_request },
            LoaderEvent::AllocationGranted(_),
        ) => {
            if requests.len() > 0 && next_request < requests.len() - 1 {
                LoaderState::PlaceKernel {
                    kernel_entry,
                    kernel_bytes,
                    segments,
                    requests,
                    next_request: next_request + 1,
                }
            } else {
                enter_copy_kernel(kernel_entry, &kernel_bytes, &segments)
            }
        },
        (LoaderState::PlaceKernel { .. }, LoaderEvent::AllocationDenied) => LoaderState::Failed {
            failure: BootFailure {
                stage: Stage::PlaceKernelExact,
                error: BootError::AllocationError,
            },
        },
        (
            LoaderState::CopyKernel { kernel_entry, commands, next_command },
            LoaderEvent::WriteDone,
        ) => {
            if commands.len() > 0 && next_command < commands.len() - 1 {
                LoaderState::CopyKernel { kernel_entry, commands, next_command: next_command + 1 }
            } else {
                LoaderState::ReserveTrampolineFirst { kernel_entry }
            }
        },
        (LoaderState::CopyKernel { .. }, LoaderEvent::WriteRejected) => LoaderState::Failed {
            failure: BootFailure {
                stage: Stage::CopyKernelSegments,
                error: BootError::AllocationError,
            },
        },
        (
            LoaderState::ReserveTrampolineFirst { kernel_entry },
            LoaderEvent::AllocationGranted(_),
        ) => LoaderState::LoadInitFile { kernel_entry },
        (
            LoaderState::ReserveTrampolineFirst { kernel_entry },
            LoaderEvent::AllocationDenied,
        ) => LoaderState::ReserveTrampolineSecond { kernel_entry },
        (
            LoaderState::ReserveTrampolineSecond { kernel_entry },
            LoaderEvent::AllocationGranted(_),
        ) => LoaderState::LoadInitFile { kernel_entry },
        (
            LoaderState::ReserveTrampolineSecond { .. },
            LoaderEvent::AllocationDenied,
        ) => LoaderState::Failed {
            failure: BootFailure {
                stage: Stage::ReserveApTrampoline,
                error: BootError::OutOfResources,
            },
        },
        (LoaderState::LoadInitFile { kernel_entry }, LoaderEvent::FileRead(bytes)) => {
            after_init_bytes(kernel_entry, bytes)
        },
        (LoaderState::LoadInitFile { .. }, LoaderEvent::FileUnreadable) => LoaderState::Failed {
            failure: BootFailure { stage: Stage::ReadInitBytes, error: BootError::IoError },
        },
        (
            LoaderState::AllocateInit { kernel_entry, init_bytes, init_image, total_pages },
            LoaderEvent::AllocationGranted(base),
        ) => enter_copy_init(kernel_entry, init_bytes, init_image, base, total_pages),
        (LoaderState::AllocateInit { .. }, LoaderEvent::AllocationDenied) => LoaderState::Failed {
            failure: BootFailure {
                stage: Stage::AllocateInitRegion,
                error: BootError::AllocationError,
            },
        },
        (
            LoaderState::CopyInit {
                kernel_entry,
                init_bytes,
                init_image,
                base,
                total_pages,
                commands,
                next_command,
            },
            LoaderEvent::WriteDone,
        ) => {
            if commands.len() > 0 && next_command < commands.len() - 1 {
                LoaderState::CopyInit {
                    kernel_entry,
                    init_bytes,
                    init_image,
                    base,
                    total_pages,
                    commands,
                    next_command: next_command + 1,
                }
            } else {
                finish_init(kernel_entry, &init_bytes, &init_image, base, total_pages)
            }
        },
        (LoaderState::CopyInit { .. }, LoaderEvent::WriteRejected) => LoaderState::Failed {
            failure: BootFailure {
                stage: Stage::CopyInitSegments,
                error: BootError::AllocationError,
            },
        },
        (s, _) => s,
    }
}

/// A completed boot cannot be repeated. Running the whole sequence again,
/// against the reservations the first pass left behind, fails: the memory
/// of the first pass — the trampoline page among it — is still reserved,
/// so the second pass is refused an allocation no later than its own
/// trampoline reservation.
pub proof fn lemma_boot_sequence_not_idempotent(
    regions: Seq<RegionModel>,
    kernel: Seq<u8>,
    init: Seq<u8>,
)
    requires
        spec_run(regions, kernel, init) is Ok,
    ensures
        spec_run(spec_run(regions, kernel, init)->Ok_0.0, kernel, init) is Err,
{
    let p = spec_run(regions, kernel, init)->Ok_0;
    let ksegs = spec_segments_of(kernel);
    let r1 = spec_allocate_kernel(regions, ksegs)->Ok_0;
    let r2 = spec_materialize_all(r1, ksegs, kernel, 0)->Ok_0;
    let r3 = r2.push(spec_fresh_region(AP_TRAMPOLINE_BASE, 1));
    assert(spec_contains_extent(r3, AP_TRAMPOLINE_BASE, 4096)) by {
        assert(r3[r3.len() - 1].base == AP_TRAMPOLINE_BASE);
        assert(r3[r3.len() - 1].data.len() == 4096);
    }
    let isegs = spec_segments_of(init);
    let span = spec_load_span(isegs);
    let pages = spec_pages_rounded(span.1 - span.0);
    let base = spec_any_base(r3);
    let r4 = r3.push(spec_fresh_region(base as u64, pages as u64));
    assert(spec_contains_extent(r4, AP_TRAMPOLINE_BASE, 4096)) by {
        let j = choose|j: int|
            0 <= j < r3.len() && (#[trigger] r3[j]).base == AP_TRAMPOLINE_BASE
                && r3[j].data.len() == 4096;
        assert(r4[j].base == AP_TRAMPOLINE_BASE && r4[j].data.len() == 4096);
    }
    lemma_materialize_all_preserves_extents(r4, isegs, init, base as u64);
    let r5 = spec_materialize_all(r4, isegs, init, base as u64)->Ok_0;
    assert(p.0 == r5);
    assert(spec_contains_extent(r5, AP_TRAMPOLINE_BASE, 4096)) by {
        let j = choose|j: int|
            0 <= j < r4.len() && (#[trigger] r4[j]).base == AP_TRAMPOLINE_BASE
                && r4[j].data.len() == 4096;
        assert(r5[j].base == AP_TRAMPOLINE_BASE && r5[j].data.len() == 4096);
    }
    match spec_allocate_kernel(r5, ksegs) {
        Err(_) => {},
        Ok(q1) => {
            lemma_allocate_kernel_extends(r5, ksegs);
            assert(spec_contains_extent(q1, AP_TRAMPOLINE_BASE, 4096)) by {
                let j = choose|j: int|
                    0 <= j < r5.len() && (#[trigger] r5[j]).base == AP_TRAMPOLINE_BASE
                        && r5[j].data.len() == 4096;
                assert(q1[j].base == AP_TRAMPOLINE_BASE && q1[j].data.len() == 4096);
            }
            match spec_materialize_all(q1, ksegs, kernel, 0) {
                Err(_) => {},
                Ok(q2) => {
                    lemma_materialize_all_preserves_extents(q1, ksegs, kernel, 0);
                    assert(!spec_exact_fits(q2, AP_TRAMPOLINE_BASE, 1)) by {
                        let j = choose|j: int|
                            0 <= j < q1.len() && (#[trigger] q1[j]).base == AP_TRAMPOLINE_BASE
                                && q1[j].data.len() == 4096;
                        assert(q2[j].base == AP_TRAMPOLINE_BASE && q2[j].data.len() == 4096);
                        assert(!(AP_TRAMPOLINE_BASE + 1 * 4096 <= q2[j].base || q2[j].end()
                            <= AP_TRAMPOLINE_BASE));
                    }
                },
            }
        },
    }
}

} // verus!
