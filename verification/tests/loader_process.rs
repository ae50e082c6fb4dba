use ghostos::loader::{ExecutableImage, ExecutableImageError, USER_STACK_TOP};
use ghostos::memory::UserPageAccess;
use ghostos::process::{initial_context, plan_process, plan_process_memory, CreateProcessError};

struct Segment {
    p_type: u32,
    flags: u32,
    vaddr: u64,
    data: Vec<u8>,
    memsz: u64,
}

fn load(vaddr: u64, flags: u32, data: &[u8], memsz: u64) -> Segment {
    Segment { p_type: 1, flags, vaddr, data: data.to_vec(), memsz }
}

fn elf(entry: u64, machine: u16, e_type: u16, segments: &[Segment]) -> Vec<u8> {
    let mut image = vec![0x7f, b'E', b'L', b'F', 2, 1, 1, 0, 0, 0, 0, 0, 0, 0, 0, 0];
    image.extend_from_slice(&e_type.to_le_bytes());
    image.extend_from_slice(&machine.to_le_bytes());
    image.extend_from_slice(&1u32.to_le_bytes());
    image.extend_from_slice(&entry.to_le_bytes());
    image.extend_from_slice(&64u64.to_le_bytes());
    image.extend_from_slice(&0u64.to_le_bytes());
    image.extend_from_slice(&0u32.to_le_bytes());
    image.extend_from_slice(&64u16.to_le_bytes());
    image.extend_from_slice(&56u16.to_le_bytes());
    image.extend_from_slice(&(segments.len() as u16).to_le_bytes());
    image.extend_from_slice(&64u16.to_le_bytes());
    image.extend_from_slice(&0u16.to_le_bytes());
    image.extend_from_slice(&0u16.to_le_bytes());
    let mut offset = 64 + 56 * segments.len() as u64;
    for s in segments {
        image.extend_from_slice(&s.p_type.to_le_bytes());
        image.extend_from_slice(&s.flags.to_le_bytes());
        image.extend_from_slice(&offset.to_le_bytes());
        image.extend_from_slice(&s.vaddr.to_le_bytes());
        image.extend_from_slice(&s.vaddr.to_le_bytes());
        image.extend_from_slice(&(s.data.len() as u64).to_le_bytes());
        image.extend_from_slice(&s.memsz.to_le_bytes());
        image.extend_from_slice(&0x1000u64.to_le_bytes());
        offset += s.data.len() as u64;
    }
    for s in segments {
        image.extend_from_slice(&s.data);
    }
    image
}

fn program() -> Vec<u8> {
    elf(
        0x40_1000,
        62,
        2,
        &[load(0x40_2000, 6, &[9, 9], 0x1800), load(0x40_1000, 5, &[0x90, 0xC3], 2)],
    )
}

#[test]
fn loads_segments_in_address_order() {
    let image = program();
    let exe = ExecutableImage::new(&image).unwrap();
    assert_eq!(exe.entry_point(), 0x40_1000);
    let segments = exe.load_segments().unwrap();
    assert_eq!(segments.len(), 2);
    assert_eq!(segments[0].start_address, 0x40_1000);
    assert_eq!(segments[0].end_address, 0x40_1001);
    assert_eq!(segments[0].access, UserPageAccess::ReadExecute);
    assert_eq!(segments[0].data, vec![0x90, 0xC3]);
    assert_eq!(segments[1].start_address, 0x40_2000);
    assert_eq!(segments[1].end_address, 0x40_37FF);
    assert_eq!(segments[1].memory_size, 0x1800);
    assert_eq!(segments[1].access, UserPageAccess::ReadWrite);
    assert_eq!(segments[1].data, vec![9, 9]);
}

#[test]
fn rejects_bad_headers() {
    assert!(matches!(ExecutableImage::new(&[0u8; 10]), Err(ExecutableImageError::Parse(_))));
    let wrong_machine = elf(0x40_1000, 3, 2, &[load(0x40_1000, 5, &[1], 1)]);
    assert!(matches!(ExecutableImage::new(&wrong_machine), Err(ExecutableImageError::UnsupportedMachine)));
    let shared_object = elf(0x40_1000, 62, 3, &[load(0x40_1000, 5, &[1], 1)]);
    assert!(matches!(ExecutableImage::new(&shared_object), Err(ExecutableImageError::UnsupportedType)));
    let bad_entry = elf(0x1000, 62, 2, &[load(0x40_1000, 5, &[1], 1)]);
    assert!(matches!(ExecutableImage::new(&bad_entry), Err(ExecutableImageError::InvalidEntryPoint)));
    let no_headers = elf(0x40_1000, 62, 2, &[]);
    assert!(matches!(ExecutableImage::new(&no_headers), Err(ExecutableImageError::MissingProgramHeaders)));
}

#[test]
fn rejects_bad_segments() {
    let writable_code = elf(0x40_1000, 62, 2, &[load(0x40_1000, 7, &[1], 1)]);
    let exe = ExecutableImage::new(&writable_code).unwrap();
    assert!(matches!(exe.load_segments(), Err(ExecutableImageError::InvalidLoadSegment)));
    let outside = elf(0x40_1000, 62, 2, &[load(0x1000, 5, &[1], 1)]);
    let exe = ExecutableImage::new(&outside).unwrap();
    assert!(matches!(exe.load_segments(), Err(ExecutableImageError::InvalidLoadSegment)));
    let overlapping = elf(
        0x40_1000,
        62,
        2,
        &[load(0x40_1000, 5, &[1], 0x10), load(0x40_1800, 4, &[2], 0x10)],
    );
    let exe = ExecutableImage::new(&overlapping).unwrap();
    assert!(matches!(exe.load_segments(), Err(ExecutableImageError::OverlappingLoadSegments)));
    let mut truncated = elf(0x40_1000, 62, 2, &[load(0x40_1000, 5, &[1, 2, 3, 4], 4)]);
    truncated.truncate(truncated.len() - 2);
    let exe = ExecutableImage::new(&truncated).unwrap();
    assert!(matches!(exe.load_segments(), Err(ExecutableImageError::Parse(_))));
}

#[test]
fn skips_empty_and_non_load_segments() {
    let mut note = load(0x1000, 4, &[7], 1);
    note.p_type = 4;
    let image = elf(0x40_1000, 62, 2, &[note, load(0x40_5000, 4, &[], 0), load(0x40_1000, 5, &[1], 1)]);
    let exe = ExecutableImage::new(&image).unwrap();
    let segments = exe.load_segments().unwrap();
    assert_eq!(segments.len(), 1);
    assert_eq!(segments[0].start_address, 0x40_1000);
}

#[test]
fn process_maps_segments_heap_and_stack() {
    let image = program();
    let exe = ExecutableImage::new(&image).unwrap();
    let (segments, plan) = plan_process(&exe, 0x2000).unwrap();
    assert_eq!(segments.len(), 2);
    let ranges: Vec<(u64, u64, UserPageAccess)> = plan
        .requests()
        .iter()
        .map(|r| (r.start_page.start_address(), r.end_page.start_address(), r.access))
        .collect();
    assert_eq!(
        ranges,
        vec![
            (0x40_1000, 0x40_1000, UserPageAccess::ReadExecute),
            (0x40_2000, 0x40_3000, UserPageAccess::ReadWrite),
            (0x1_0000_0000, 0x1_0000_1000, UserPageAccess::ReadWrite),
            (0x7fff_fffe_f000, 0x7fff_ffff_e000, UserPageAccess::ReadWrite),
        ]
    );
    let estimate = plan.frame_estimate();
    assert_eq!(estimate.data_frames, 1 + 2 + 2 + 16);
}

#[test]
fn process_without_heap_maps_no_heap() {
    let image = program();
    let exe = ExecutableImage::new(&image).unwrap();
    let segments = exe.load_segments().unwrap();
    let plan = plan_process_memory(&segments, 0);
    assert_eq!(plan.requests().len(), 3);
    assert_eq!(plan.requests()[2].start_page.start_address(), 0x7fff_fffe_f000);
}

#[test]
fn process_errors_come_from_the_executable() {
    let writable_code = elf(0x40_1000, 62, 2, &[load(0x40_1000, 7, &[1], 1)]);
    let exe = ExecutableImage::new(&writable_code).unwrap();
    assert!(matches!(
        plan_process(&exe, 0),
        Err(CreateProcessError::Executable(ExecutableImageError::InvalidLoadSegment))
    ));
}

#[test]
fn initial_context_passes_the_frame_buffer() {
    let c = initial_context(0x40_1000, 0x1000_0000_0123, 0x23, 0x1b);
    assert_eq!(c.instruction_pointer, 0x40_1000);
    assert_eq!(c.stack_pointer, USER_STACK_TOP - 8);
    assert_eq!(c.rdi, 0x1000_0000_0123);
    assert_eq!(c.flags, 0x202);
    assert_eq!((c.code_segment, c.stack_segment), (0x23, 0x1b));
}
