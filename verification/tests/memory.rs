use ghostos::frames::{usable_frame_count, MemoryRegion, PhysicalFrameAllocator};
use ghostos::memory::{
    address_space_frame_count, phys_to_virt, plan_framebuffer_mapping, user_write_chunks,
    MappingTransaction, UserPage, UserPageAccess, UserWriteChunk,
};

#[test]
fn user_pages_start_on_page_boundaries() {
    assert_eq!(UserPage::containing_address(0x40_1234).start_address(), 0x40_1000);
    assert_eq!(UserPage::containing_address(0x1000).start_address(), 0x1000);
    assert_eq!(UserPage::containing_address(0x7fff_ffff_ffff).start_address(), 0x7fff_ffff_f000);
}

#[test]
fn page_access_flags() {
    assert_eq!(UserPageAccess::ReadOnly.flags(), 0x8000_0000_0000_0005);
    assert_eq!(UserPageAccess::ReadWrite.flags(), 0x8000_0000_0000_0007);
    assert_eq!(UserPageAccess::ReadExecute.flags(), 0x5);
}

fn page(address: u64) -> UserPage {
    UserPage::containing_address(address)
}

#[test]
fn mapping_requests_stay_sorted() {
    let plan = MappingTransaction::new()
        .map_user_pages(page(0x7fff_fffe_f000), page(0x7fff_ffff_e000), UserPageAccess::ReadWrite)
        .map_user_page(page(0x40_1000), UserPageAccess::ReadExecute)
        .map_user_pages(page(0x1_0000_0000), page(0x1_0000_1000), UserPageAccess::ReadWrite)
        .map_user_pages(page(0x40_2000), page(0x40_3000), UserPageAccess::ReadWrite);
    let starts: Vec<u64> = plan.requests().iter().map(|r| r.start_page.start_address()).collect();
    assert_eq!(starts, vec![0x40_1000, 0x40_2000, 0x1_0000_0000, 0x7fff_fffe_f000]);
    let estimate = plan.frame_estimate();
    assert_eq!(estimate.data_frames, 21);
    assert_eq!(estimate.page_table_frames, 8);
    assert_eq!(estimate.total(), 29);
    assert_eq!(address_space_frame_count(&plan), 30);
}

#[test]
fn frame_estimate_counts_shared_tables_once() {
    let one = MappingTransaction::new().map_user_page(page(0x40_1000), UserPageAccess::ReadOnly);
    let e = one.frame_estimate();
    assert_eq!((e.data_frames, e.page_table_frames), (1, 3));
    let three = MappingTransaction::new()
        .map_user_page(page(0x1000), UserPageAccess::ReadOnly)
        .map_user_pages(page(0x1f_f000), page(0x20_0000), UserPageAccess::ReadOnly)
        .map_user_page(page(0x3f_f000), UserPageAccess::ReadOnly);
    let e = three.frame_estimate();
    assert_eq!((e.data_frames, e.page_table_frames), (4, 4));
    assert_eq!(MappingTransaction::new().frame_estimate().total(), 0);
}

#[test]
fn user_writes_split_at_page_boundaries() {
    assert_eq!(
        user_write_chunks(0x40_0ffe, 5000),
        vec![
            UserWriteChunk { address: 0x40_0ffe, data_offset: 0, size: 2 },
            UserWriteChunk { address: 0x40_1000, data_offset: 2, size: 4096 },
            UserWriteChunk { address: 0x40_2000, data_offset: 4098, size: 902 },
        ]
    );
    assert_eq!(user_write_chunks(0x40_1000, 0), vec![]);
    assert_eq!(
        user_write_chunks(0x40_1000, 4096),
        vec![UserWriteChunk { address: 0x40_1000, data_offset: 0, size: 4096 }]
    );
}

#[test]
fn frame_buffer_mapping_keeps_the_offset_in_the_page() {
    let m = plan_framebuffer_mapping(0xffff_8000_1234_5678, 1280 * 720 * 3);
    assert_eq!(m.source_start_page, 0xffff_8000_1234_5000);
    assert_eq!(m.user_address, 0x1000_0000_0678);
    let last = 0xffff_8000_1234_5678u64 + 1280 * 720 * 3 - 1;
    assert_eq!(m.page_count, last / 4096 - 0xffff_8000_1234_5678u64 / 4096 + 1);
    assert_eq!(m.user_page(0).start_address(), 0x1000_0000_0000);
    assert_eq!(m.user_page(3).start_address(), 0x1000_0000_3000);
    let small = plan_framebuffer_mapping(0x2000, 1);
    assert_eq!((small.page_count, small.user_address), (1, 0x1000_0000_0000));
}

#[test]
fn physical_memory_is_seen_at_an_offset() {
    assert_eq!(phys_to_virt(0xffff_8000_0000_0000, 0xb8000), 0xffff_8000_000b_8000);
}

fn regions() -> Vec<MemoryRegion> {
    vec![
        MemoryRegion { start: 0x0, end: 0x1000, usable: false },
        MemoryRegion { start: 0x1000, end: 0x3000, usable: true },
        MemoryRegion { start: 0x3000, end: 0x8000, usable: false },
        MemoryRegion { start: 0x8000, end: 0x8800, usable: true },
        MemoryRegion { start: 0x10000, end: 0x11001, usable: true },
    ]
}

#[test]
fn allocator_hands_out_usable_frames_in_order() {
    let mut allocator = PhysicalFrameAllocator::new(regions());
    assert_eq!(allocator.remaining_frames(), 5);
    let frames: Vec<Option<u64>> = (0..6).map(|_| allocator.allocate_frame()).collect();
    assert_eq!(
        frames,
        vec![Some(0x1000), Some(0x2000), Some(0x8000), Some(0x10000), Some(0x11000), None]
    );
    assert_eq!(allocator.remaining_frames(), 0);
}

#[test]
fn unaligned_regions_give_their_containing_frames() {
    let mut allocator =
        PhysicalFrameAllocator::new(vec![MemoryRegion { start: 0x1800, end: 0x3000, usable: true }]);
    assert_eq!(allocator.allocate_frame(), Some(0x1000));
    assert_eq!(allocator.allocate_frame(), Some(0x2000));
    assert_eq!(allocator.allocate_frame(), None);
}

#[test]
fn reservations_succeed_as_often_as_promised() {
    let allocator = PhysicalFrameAllocator::new(regions());
    let allocator = match allocator.reserve(6) {
        Err(a) => a,
        Ok(_) => panic!("reserved more frames than there are"),
    };
    let mut reservation = match allocator.reserve(3) {
        Ok(r) => r,
        Err(_) => panic!("reservation refused"),
    };
    assert_eq!(reservation.remaining(), 3);
    assert_eq!(reservation.allocate_frame(), Some(0x1000));
    assert_eq!(reservation.allocate_frame(), Some(0x2000));
    assert_eq!(reservation.allocate_frame(), Some(0x8000));
    assert_eq!(reservation.remaining(), 0);
    let mut allocator = reservation.into_allocator();
    assert_eq!(allocator.remaining_frames(), 2);
    assert_eq!(allocator.allocate_frame(), Some(0x10000));
}

#[test]
fn usable_frames_are_counted_region_by_region() {
    assert_eq!(usable_frame_count(&regions()), 5);
    assert_eq!(usable_frame_count(&vec![]), 0);
    let huge = vec![MemoryRegion { start: 0, end: u64::MAX, usable: true }; 3];
    assert_eq!(usable_frame_count(&huge), 3 * (((u64::MAX - 1) / 4096 + 1) as u128));
}
