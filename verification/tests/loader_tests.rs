use a9nloader::boot::{
    advance, initial_state, next_action, run, LoaderAction, LoaderEvent, LoaderState,
};
use a9nloader::elf::{parse_elf, Image, ProgramSegment, PT_LOAD, SHT_STRTAB, SHT_SYMTAB};
use a9nloader::error::{BootError, Stage};
use a9nloader::loader::{
    calculate_load_span_physical_address, copy_segment_to_physical_address,
    kernel_allocation_requests, load_init_at_anywhere, load_kernel_at_physical_address,
    reserve_ap_trampoline, CopyCommand, InitImageInfo, AP_TRAMPOLINE_BASE,
};
use a9nloader::memory::{
    AllocationRequest, BootMemory, MemoryRegion, MemoryTag, ANY_ALLOCATION_FLOOR,
    FRESH_REGION_FILL,
};

fn put_u16(buf: &mut [u8], off: usize, v: u16) {
    buf[off..off + 2].copy_from_slice(&v.to_le_bytes());
}

fn put_u32(buf: &mut [u8], off: usize, v: u32) {
    buf[off..off + 4].copy_from_slice(&v.to_le_bytes());
}

fn put_u64(buf: &mut [u8], off: usize, v: u64) {
    buf[off..off + 8].copy_from_slice(&v.to_le_bytes());
}

fn elf_header(entry: u64, ph_count: u16, sh_count: u16, sh_off: u64) -> Vec<u8> {
    let mut h = vec![0u8; 64];
    h[0] = 0x7f;
    h[1] = 0x45;
    h[2] = 0x4c;
    h[3] = 0x46;
    h[4] = 2;
    h[5] = 1;
    put_u64(&mut h, 24, entry);
    if ph_count > 0 {
        put_u64(&mut h, 32, 64);
        put_u16(&mut h, 54, 56);
    }
    put_u16(&mut h, 56, ph_count);
    if sh_count > 0 {
        put_u64(&mut h, 40, sh_off);
        put_u16(&mut h, 58, 64);
    }
    put_u16(&mut h, 60, sh_count);
    h
}

fn program_header(p_type: u32, offset: u64, vaddr: u64, paddr: u64, filesz: u64, memsz: u64) -> Vec<u8> {
    let mut ph = vec![0u8; 56];
    put_u32(&mut ph, 0, p_type);
    put_u64(&mut ph, 8, offset);
    put_u64(&mut ph, 16, vaddr);
    put_u64(&mut ph, 24, paddr);
    put_u64(&mut ph, 32, filesz);
    put_u64(&mut ph, 40, memsz);
    ph
}

fn section_header(sh_type: u32, link: u32, offset: u64, size: u64) -> Vec<u8> {
    let mut sh = vec![0u8; 64];
    put_u32(&mut sh, 4, sh_type);
    put_u64(&mut sh, 24, offset);
    put_u64(&mut sh, 32, size);
    put_u32(&mut sh, 40, link);
    sh
}

fn symbol_entry(name_offset: u32, value: u64) -> Vec<u8> {
    let mut e = vec![0u8; 24];
    put_u32(&mut e, 0, name_offset);
    put_u64(&mut e, 8, value);
    e
}

fn segment(p_type: u32, paddr: u64, offset: u64, filesz: u64, memsz: u64) -> ProgramSegment {
    ProgramSegment {
        segment_type: p_type,
        physical_address: paddr,
        virtual_address: 0,
        file_offset: offset,
        file_size: filesz,
        mem_size: memsz,
    }
}

fn image_of(segments: Vec<ProgramSegment>) -> Image {
    Image { entry_point: 0, segments, sections: vec![] }
}

/// A kernel image: one LOAD segment of four file bytes and four more of
/// zero fill, linked at a higher-half virtual address.
fn kernel_elf() -> Vec<u8> {
    let mut bytes = elf_header(0xFFFF_8000_0001_0000, 1, 0, 0);
    bytes.extend(program_header(PT_LOAD, 120, 0xFFFF_8000_0001_0000, 0x0001_0000, 4, 8));
    assert_eq!(bytes.len(), 120);
    bytes.extend(&[0xDE, 0xAD, 0xBE, 0xEF]);
    bytes
}

/// An init image: one LOAD segment of four file bytes at relative address
/// zero, and the two metadata symbols the loader must resolve.
fn init_elf() -> Vec<u8> {
    let mut bytes = elf_header(0x4000_0000, 1, 2, 120);
    bytes.extend(program_header(PT_LOAD, 248, 0x4000_0000, 0, 4, 4));
    assert_eq!(bytes.len(), 120);
    bytes.extend(section_header(SHT_SYMTAB, 1, 252, 48));
    bytes.extend(section_header(SHT_STRTAB, 0, 300, 43));
    assert_eq!(bytes.len(), 248);
    bytes.extend(&[0xCA, 0xFE, 0xBA, 0xBE]);
    bytes.extend(symbol_entry(1, 0x1234));
    bytes.extend(symbol_entry(19, 0x5678));
    bytes.extend(b"\0__init_info_start\0__init_ipc_buffer_start\0");
    bytes
}

#[test]
fn kernel_placement_issues_one_request_per_backed_load_segment() {
    let image = image_of(vec![
        segment(PT_LOAD, 0xFFFF_8000_0010_0000, 0, 0, 0x2000),
        segment(PT_LOAD, 0x0020_0000, 0, 0, 0),
        segment(4, 0x0030_0000, 0, 0, 0x1000),
        segment(PT_LOAD, 0x0040_0000, 0, 0, 1),
    ]);
    let requests = kernel_allocation_requests(&image);
    assert_eq!(requests.len(), 2);
    assert_eq!(
        requests[0],
        AllocationRequest::Exact {
            physical_address: 0x0010_0000,
            pages: 2,
            tag: MemoryTag::Reserved,
        }
    );
    assert_eq!(
        requests[1],
        AllocationRequest::Exact {
            physical_address: 0x0040_0000,
            pages: 1,
            tag: MemoryTag::Reserved,
        }
    );
}

#[test]
fn init_span_covers_all_load_segments() {
    let image = image_of(vec![
        segment(PT_LOAD, 10, 0, 0, 10),
        segment(PT_LOAD, 15, 0, 0, 25),
    ]);
    let (start, end) = calculate_load_span_physical_address(&image).unwrap();
    assert_eq!((start, end), (10, 40));
    assert_eq!(end - start, 30);
    assert_eq!(a9nloader::util::bytes_to_pages_rounded((end - start) as usize), 1);
}

#[test]
fn init_span_of_no_load_segments_is_degenerate() {
    let image = image_of(vec![segment(4, 100, 0, 0, 50)]);
    let (start, end) = calculate_load_span_physical_address(&image).unwrap();
    assert_eq!(start, u64::MAX);
    assert_eq!(end, 0);
}

#[test]
fn materialize_copies_file_bytes_and_zeroes_the_tail() {
    let mut region = MemoryRegion::new_filled(0x1000, 4096, FRESH_REGION_FILL);
    let seg = segment(PT_LOAD, 0x1000, 2, 4, 10);
    let image = [0u8, 0, 1, 2, 3, 4];
    copy_segment_to_physical_address(&seg, &image, 0, &mut region).unwrap();
    assert_eq!(&region.data[0..4], &[1, 2, 3, 4]);
    assert_eq!(&region.data[4..10], &[0, 0, 0, 0, 0, 0]);
    assert_eq!(region.data[10], FRESH_REGION_FILL);
    assert_eq!(region.data[4095], FRESH_REGION_FILL);
}

#[test]
fn materialize_skips_non_load_segments() {
    let mut region = MemoryRegion::new_filled(0x1000, 4096, FRESH_REGION_FILL);
    let seg = segment(4, 0x1000, 0, 4, 10);
    let image = [1u8, 2, 3, 4];
    copy_segment_to_physical_address(&seg, &image, 0, &mut region).unwrap();
    assert!(region.data.iter().all(|b| *b == FRESH_REGION_FILL));
}

#[test]
fn materialize_masks_destination_of_fileless_segment() {
    let mut region = MemoryRegion::new_filled(0x2000, 4096, FRESH_REGION_FILL);
    let seg = segment(PT_LOAD, 0xFFFF_8000_0000_2000, 0, 0, 8);
    copy_segment_to_physical_address(&seg, &[], 0, &mut region).unwrap();
    assert_eq!(&region.data[0..8], &[0; 8]);
    assert_eq!(region.data[8], FRESH_REGION_FILL);
}

#[test]
fn materialize_rejects_source_outside_image() {
    let mut region = MemoryRegion::new_filled(0x1000, 4096, FRESH_REGION_FILL);
    let seg = segment(PT_LOAD, 0x1000, 4, 4, 4);
    let image = [1u8, 2, 3, 4];
    assert_eq!(
        copy_segment_to_physical_address(&seg, &image, 0, &mut region).unwrap_err(),
        BootError::ParseError
    );
    assert!(region.data.iter().all(|b| *b == FRESH_REGION_FILL));
}

#[test]
fn materialize_rejects_destination_outside_region() {
    let mut region = MemoryRegion::new_filled(0x1000, 4096, FRESH_REGION_FILL);
    let seg = segment(PT_LOAD, 0x1FFF, 0, 4, 4);
    let image = [1u8, 2, 3, 4];
    assert_eq!(
        copy_segment_to_physical_address(&seg, &image, 0, &mut region).unwrap_err(),
        BootError::AllocationError
    );
}

#[test]
fn trampoline_reservation_succeeds_when_first_tag_is_rejected() {
    // this firmware rejects the first tag tried; the second is accepted
    let mut memory = BootMemory::new(false);
    reserve_ap_trampoline(&mut memory).unwrap();
    assert_eq!(memory.regions.len(), 1);
    assert_eq!(memory.regions[0].base, AP_TRAMPOLINE_BASE);
    assert_eq!(memory.regions[0].data.len(), 4096);
}

#[test]
fn trampoline_reservation_reports_out_of_resources_when_all_rejected() {
    let mut memory = BootMemory::new(true);
    memory.allocate_exact(AP_TRAMPOLINE_BASE, 1, MemoryTag::Reserved).unwrap();
    assert_eq!(reserve_ap_trampoline(&mut memory).unwrap_err(), BootError::OutOfResources);
}

#[test]
fn init_span_overflowing_the_address_space_is_rejected() {
    let image = image_of(vec![segment(PT_LOAD, u64::MAX - 100, 0, 0, 200)]);
    assert_eq!(
        calculate_load_span_physical_address(&image).unwrap_err(),
        BootError::ParseError
    );
}

#[test]
fn exact_allocation_of_the_largest_request_is_rejected() {
    let mut memory = BootMemory::new(true);
    assert_eq!(
        memory.allocate_exact(1, u64::MAX, MemoryTag::Reserved).unwrap_err(),
        BootError::AllocationError
    );
    assert_eq!(
        memory.allocate_exact(u64::MAX - 4095, 1, MemoryTag::Reserved).unwrap_err(),
        BootError::AllocationError
    );
    assert_eq!(memory.regions.len(), 0);
}

#[test]
fn exact_allocation_fails_on_overlap() {
    let mut memory = BootMemory::new(true);
    memory.allocate_exact(0x10_0000, 2, MemoryTag::Reserved).unwrap();
    assert_eq!(
        memory.allocate_exact(0x10_1000, 1, MemoryTag::Reserved).unwrap_err(),
        BootError::AllocationError
    );
}

#[test]
fn load_kernel_copies_file_bytes_and_clears_the_tail() {
    let kernel = kernel_elf();
    let image = parse_elf(&kernel).unwrap();
    let mut memory = BootMemory::new(true);
    let entry = load_kernel_at_physical_address(&image, &kernel, &mut memory).unwrap();
    assert_eq!(entry, 0xFFFF_8000_0001_0000);
    assert_eq!(memory.regions.len(), 1);
    let region = &memory.regions[0];
    assert_eq!(region.base, 0x0001_0000);
    assert_eq!(region.data.len(), 4096);
    assert_eq!(&region.data[0..4], &[0xDE, 0xAD, 0xBE, 0xEF]);
    assert_eq!(&region.data[4..8], &[0; 4]);
    assert_eq!(region.data[8], FRESH_REGION_FILL);
}

#[test]
fn load_kernel_reserves_at_masked_address_but_copies_to_declared_address() {
    // a file-backed segment declared at a higher-half physical address is
    // reserved at the stripped address, while its bytes are written to the
    // declared address; the bounds-checked write refuses the mismatch
    let kernel = {
        let mut b = elf_header(0x11, 1, 0, 0);
        b.extend(program_header(PT_LOAD, 120, 0x11, 0xFFFF_8000_0002_0000, 4, 8));
        b.extend(&[9, 8, 7, 6]);
        b
    };
    let image = parse_elf(&kernel).unwrap();
    let mut memory = BootMemory::new(true);
    assert_eq!(
        load_kernel_at_physical_address(&image, &kernel, &mut memory).unwrap_err(),
        BootError::AllocationError
    );
    assert_eq!(memory.regions.len(), 1, "the reservation itself succeeded");
    assert_eq!(memory.regions[0].base, 0x0002_0000);
}

#[test]
fn load_init_lands_segments_at_chosen_base_and_resolves_symbols() {
    let init = init_elf();
    let image = parse_elf(&init).unwrap();
    let mut memory = BootMemory::new(true);
    let info = load_init_at_anywhere(&image, &init, &mut memory).unwrap();
    assert_eq!(
        info,
        InitImageInfo {
            loaded_address: ANY_ALLOCATION_FLOOR,
            init_image_pages: 1,
            entry_point_virtual_address: 0x4000_0000,
            init_info_virtual_address: 0x1234,
            init_ipc_buffer_virtual_address: 0x5678,
        }
    );
    let region = &memory.regions[0];
    assert_eq!(region.base, ANY_ALLOCATION_FLOOR);
    assert_eq!(&region.data[0..4], &[0xCA, 0xFE, 0xBA, 0xBE]);
    assert_eq!(region.data[4], FRESH_REGION_FILL);
}

#[test]
fn load_init_without_symbols_fails_after_placement() {
    let mut bytes = elf_header(0x4000_0000, 1, 0, 0);
    bytes.extend(program_header(PT_LOAD, 120, 0, 0, 4, 4));
    bytes.extend(&[1, 2, 3, 4]);
    let image = parse_elf(&bytes).unwrap();
    let mut memory = BootMemory::new(true);
    assert_eq!(
        load_init_at_anywhere(&image, &bytes, &mut memory).unwrap_err(),
        BootError::SymbolNotFound
    );
}

#[test]
fn full_boot_returns_entry_point_and_init_record() {
    let kernel = kernel_elf();
    let init = init_elf();
    let mut memory = BootMemory::new(true);
    let outcome = run(&kernel, &init, &mut memory).unwrap();
    assert_eq!(outcome.kernel_entry_point, 0xFFFF_8000_0001_0000);
    assert_eq!(outcome.init.loaded_address, ANY_ALLOCATION_FLOOR);
    assert_eq!(outcome.init.init_image_pages, 1);
    assert_eq!(outcome.init.entry_point_virtual_address, 0x4000_0000);
    assert_eq!(outcome.init.init_info_virtual_address, 0x1234);
    assert_eq!(outcome.init.init_ipc_buffer_virtual_address, 0x5678);
    // kernel region, trampoline page, init region
    assert_eq!(memory.regions.len(), 3);
    assert_eq!(memory.regions[1].base, AP_TRAMPOLINE_BASE);
}

#[test]
fn second_boot_against_same_allocator_state_fails() {
    let kernel = kernel_elf();
    let init = init_elf();
    let mut memory = BootMemory::new(true);
    run(&kernel, &init, &mut memory).unwrap();
    let failure = run(&kernel, &init, &mut memory).unwrap_err();
    assert_eq!(failure.stage, Stage::PlaceKernelExact);
    assert_eq!(failure.error, BootError::AllocationError);
}

#[test]
fn boot_of_unparsable_kernel_fails_at_parse_stage() {
    let mut memory = BootMemory::new(true);
    let failure = run(&[1, 2, 3], &init_elf(), &mut memory).unwrap_err();
    assert_eq!(failure.stage, Stage::ParseKernel);
    assert_eq!(failure.error, BootError::ParseError);
}

fn apply_command(memory: &mut BootMemory, cmd: &CopyCommand, source: &[u8]) -> LoaderEvent {
    let total = cmd.file_size + cmd.zero_length;
    for region in memory.regions.iter_mut() {
        let base = region.base;
        let len = region.data.len() as u64;
        if base <= cmd.destination && cmd.destination - base + total <= len {
            let start = (cmd.destination - base) as usize;
            for i in 0..cmd.file_size as usize {
                region.data[start + i] = source[cmd.file_offset as usize + i];
            }
            for i in 0..cmd.zero_length as usize {
                region.data[start + cmd.file_size as usize + i] = 0;
            }
            return LoaderEvent::WriteDone;
        }
    }
    LoaderEvent::WriteRejected
}

fn drive(kernel: &[u8], init: &[u8], memory: &mut BootMemory) -> LoaderState {
    let mut state = initial_state();
    loop {
        let action = match next_action(&state) {
            None => return state,
            Some(a) => a,
        };
        let event = match action {
            LoaderAction::ReadKernelFile => LoaderEvent::FileRead(kernel.to_vec()),
            LoaderAction::ReadInitFile => LoaderEvent::FileRead(init.to_vec()),
            LoaderAction::Allocate(AllocationRequest::Exact { physical_address, pages, tag }) => {
                match memory.allocate_exact(physical_address, pages, tag) {
                    Ok(()) => LoaderEvent::AllocationGranted(physical_address),
                    Err(_) => LoaderEvent::AllocationDenied,
                }
            }
            LoaderAction::Allocate(AllocationRequest::Any { pages, tag }) => {
                match memory.allocate_any(pages, tag) {
                    Ok(base) => LoaderEvent::AllocationGranted(base),
                    Err(_) => LoaderEvent::AllocationDenied,
                }
            }
            LoaderAction::WriteKernelSegment(cmd) => apply_command(memory, &cmd, kernel),
            LoaderAction::WriteInitSegment(cmd) => apply_command(memory, &cmd, init),
        };
        state = advance(state, event);
    }
}

#[test]
fn state_machine_reaches_the_same_outcome_as_the_model_sequence() {
    let kernel = kernel_elf();
    let init = init_elf();
    let mut model_memory = BootMemory::new(true);
    let expected = run(&kernel, &init, &mut model_memory).unwrap();
    let mut driven_memory = BootMemory::new(true);
    let end = drive(&kernel, &init, &mut driven_memory);
    match end {
        LoaderState::Done { outcome } => assert_eq!(outcome, expected),
        other => panic!("machine did not finish: {:?}", other),
    }
    for (a, b) in model_memory.regions.iter().zip(driven_memory.regions.iter()) {
        assert_eq!(a.base, b.base);
        assert_eq!(a.data, b.data);
    }
}

#[test]
fn truncated_segment_fails_the_copy_stage_in_both_paths() {
    // one LOAD segment whose declared file range runs past the image end
    let kernel = {
        let mut b = elf_header(0x11, 1, 0, 0);
        b.extend(program_header(PT_LOAD, 120, 0x11, 0x0001_0000, 100, 100));
        b.extend(&[1, 2, 3, 4]);
        b
    };
    let init = init_elf();
    let mut model_memory = BootMemory::new(true);
    let failure = run(&kernel, &init, &mut model_memory).unwrap_err();
    assert_eq!(failure.stage, Stage::CopyKernelSegments);
    assert_eq!(failure.error, BootError::ParseError);
    let mut driven_memory = BootMemory::new(true);
    match drive(&kernel, &init, &mut driven_memory) {
        LoaderState::Failed { failure: machine_failure } => {
            assert_eq!(machine_failure.stage, Stage::CopyKernelSegments);
            assert_eq!(machine_failure.error, BootError::ParseError);
        }
        other => panic!("machine did not fail: {:?}", other),
    }
}

#[test]
fn state_machine_reports_unreadable_kernel_file() {
    let state = advance(initial_state(), LoaderEvent::FileUnreadable);
    match state {
        LoaderState::Failed { failure } => {
            assert_eq!(failure.stage, Stage::ReadKernelBytes);
            assert_eq!(failure.error, BootError::IoError);
        }
        other => panic!("unexpected state: {:?}", other),
    }
}

#[test]
fn state_machine_retries_trampoline_with_second_tag() {
    let first = LoaderState::ReserveTrampolineFirst { kernel_entry: 7 };
    let second = advance(first, LoaderEvent::AllocationDenied);
    match &second {
        LoaderState::ReserveTrampolineSecond { kernel_entry } => assert_eq!(*kernel_entry, 7),
        other => panic!("unexpected state: {:?}", other),
    }
    let granted = advance(second, LoaderEvent::AllocationGranted(AP_TRAMPOLINE_BASE));
    match granted {
        LoaderState::LoadInitFile { kernel_entry } => assert_eq!(kernel_entry, 7),
        other => panic!("unexpected state: {:?}", other),
    }
}

#[test]
fn state_machine_gives_up_after_both_trampoline_tags() {
    let second = LoaderState::ReserveTrampolineSecond { kernel_entry: 7 };
    let end = advance(second, LoaderEvent::AllocationDenied);
    match end {
        LoaderState::Failed { failure } => {
            assert_eq!(failure.stage, Stage::ReserveApTrampoline);
            assert_eq!(failure.error, BootError::OutOfResources);
        }
        other => panic!("unexpected state: {:?}", other),
    }
}
