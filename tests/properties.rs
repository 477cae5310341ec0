use uefi_memory::{
    string_for_memory_type, AddressRange, AllocationStrategy, EfiError, Layout, MemorySpace,
    PageState, UefiAllocator, ACPI_MEMORY_NVS, BOOT_SERVICES_CODE, BOOT_SERVICES_DATA, LOADER_CODE,
    LOADER_DATA, POOL_HEADER_SIZE, POOL_SIG, RUNTIME_SERVICES_CODE, RUNTIME_SERVICES_DATA,
    SIZE_64KB, UEFI_PAGE_SIZE,
};

const BASE: usize = 0x1000_0000;
const SIZE: usize = 0x400000;

fn space() -> MemorySpace {
    MemorySpace::new(BASE, SIZE).unwrap()
}

fn page_states(s: &MemorySpace) -> Vec<PageState> {
    (0..s.page_count()).map(|j| s.page_state(j)).collect()
}

#[test]
fn type_isolation_refuses_foreign_ranges_and_changes_nothing() {
    let mut sp = space();
    let mut a = UefiAllocator::new(BOOT_SERVICES_DATA, 7, UEFI_PAGE_SIZE);
    let mut b = UefiAllocator::new(RUNTIME_SERVICES_CODE, 7, UEFI_PAGE_SIZE);
    let ra = a.allocate_pages(&mut sp, AllocationStrategy::BottomUp(None), 2, UEFI_PAGE_SIZE).unwrap();
    let rb = b.allocate_pages(&mut sp, AllocationStrategy::BottomUp(None), 3, UEFI_PAGE_SIZE).unwrap();
    let states = page_states(&sp);
    let (sa, sb) = (a.stats(), b.stats());
    assert_eq!(a.free_pages(&mut sp, rb.start, 3), Err(EfiError::NotFound));
    assert_eq!(b.free_pages(&mut sp, ra.start, 2), Err(EfiError::NotFound));
    assert_eq!(page_states(&sp), states);
    assert_eq!(a.stats(), sa);
    assert_eq!(b.stats(), sb);
}

#[test]
fn pool_round_trip_reuses_the_block_with_a_valid_header() {
    let mut sp = space();
    let mut a = UefiAllocator::new(BOOT_SERVICES_DATA, 1, UEFI_PAGE_SIZE);
    let first = a.allocate_pool(&mut sp, 100).unwrap();
    assert_eq!(a.free_pool(&mut sp, first), Ok(()));
    let second = a.allocate_pool(&mut sp, 100).unwrap();
    assert_eq!(second, first);
    let info = sp.header(second - POOL_HEADER_SIZE).unwrap();
    assert_eq!(info.signature, POOL_SIG);
    assert_eq!(info.memory_type, BOOT_SERVICES_DATA);
    assert_eq!(a.stats().pool_allocation_calls, 2);
    assert_eq!(a.stats().pool_free_calls, 1);
}

#[test]
fn pool_buffers_are_aligned_and_disjoint() {
    let mut sp = space();
    let mut a = UefiAllocator::new(LOADER_DATA, 1, UEFI_PAGE_SIZE);
    let x = a.allocate_pool(&mut sp, 1).unwrap();
    let y = a.allocate_pool(&mut sp, 13).unwrap();
    let z = a.allocate_pool(&mut sp, 0).unwrap();
    for b in [x, y, z] {
        assert_eq!(b % 8, 0);
    }
    // header(24) + 1 byte rounds to a 32-byte block; blocks follow one another.
    assert_eq!(y - x, 32);
    assert_eq!(z - y, 40);
}

#[test]
fn header_signature_is_cleared_by_free_and_double_free_is_rejected() {
    let mut sp = space();
    let mut a = UefiAllocator::new(BOOT_SERVICES_DATA, 1, UEFI_PAGE_SIZE);
    let buf = a.allocate_pool(&mut sp, 64).unwrap();
    assert_eq!(sp.header(buf - POOL_HEADER_SIZE).unwrap().signature, POOL_SIG);
    a.free_pool(&mut sp, buf).unwrap();
    assert_ne!(sp.header(buf - POOL_HEADER_SIZE).unwrap().signature, POOL_SIG);
    assert_eq!(a.free_pool(&mut sp, buf), Err(EfiError::InvalidParameter));
    assert_eq!(a.stats().pool_free_calls, 1);
}

#[test]
fn free_pool_of_another_memory_type_is_not_found_and_keeps_the_header() {
    let mut sp = space();
    let mut a = UefiAllocator::new(BOOT_SERVICES_DATA, 1, UEFI_PAGE_SIZE);
    let mut b = UefiAllocator::new(RUNTIME_SERVICES_DATA, 2, UEFI_PAGE_SIZE);
    let buf = a.allocate_pool(&mut sp, 64).unwrap();
    assert_eq!(b.free_pool(&mut sp, buf), Err(EfiError::NotFound));
    let info = sp.header(buf - POOL_HEADER_SIZE).unwrap();
    assert_eq!(info.signature, POOL_SIG);
    assert_eq!(a.free_pool(&mut sp, buf), Ok(()));
}

#[test]
fn free_pool_without_a_header_is_an_invalid_parameter() {
    let mut sp = space();
    let mut a = UefiAllocator::new(BOOT_SERVICES_DATA, 1, UEFI_PAGE_SIZE);
    assert_eq!(a.free_pool(&mut sp, BASE + 0x100), Err(EfiError::InvalidParameter));
    assert_eq!(a.free_pool(&mut sp, 8), Err(EfiError::InvalidParameter));
}

#[test]
fn page_allocations_are_aligned_and_rounded_to_the_granularity() {
    let mut sp = space();
    let mut a = UefiAllocator::new(BOOT_SERVICES_DATA, 1, SIZE_64KB);
    for (pages, len) in [(4, 0x10000), (16, 0x10000), (32, 0x20000), (17, 0x20000)] {
        let r = a.allocate_pages(&mut sp, AllocationStrategy::BottomUp(None), pages, UEFI_PAGE_SIZE).unwrap();
        assert_eq!(r.start % SIZE_64KB, 0);
        assert_eq!(r.len(), len);
    }
    let mut b = UefiAllocator::new(BOOT_SERVICES_CODE, 2, UEFI_PAGE_SIZE);
    b.allocate_pages(&mut sp, AllocationStrategy::BottomUp(None), 1, UEFI_PAGE_SIZE).unwrap();
    let r = b.allocate_pages(&mut sp, AllocationStrategy::BottomUp(None), 1, 0x8000).unwrap();
    assert_eq!(r.start % 0x8000, 0);
    assert_eq!(r.len(), UEFI_PAGE_SIZE);
}

#[test]
fn exact_address_placement_returns_the_freed_range() {
    let mut sp = space();
    let mut a = UefiAllocator::new(BOOT_SERVICES_DATA, 1, SIZE_64KB);
    let r = a.allocate_pages(&mut sp, AllocationStrategy::TopDown(None), 3, UEFI_PAGE_SIZE).unwrap();
    a.free_pages(&mut sp, r.start, 3).unwrap();
    let again = a.allocate_pages(&mut sp, AllocationStrategy::Address(r.start), 3, UEFI_PAGE_SIZE).unwrap();
    assert_eq!(again, r);
}

#[test]
fn strategies_pick_lowest_highest_or_exact() {
    let mut sp = space();
    let mut a = UefiAllocator::new(BOOT_SERVICES_DATA, 1, UEFI_PAGE_SIZE);
    let low = a.allocate_pages(&mut sp, AllocationStrategy::BottomUp(None), 1, UEFI_PAGE_SIZE).unwrap();
    assert_eq!(low, AddressRange { start: BASE, end: BASE + UEFI_PAGE_SIZE });
    let high = a.allocate_pages(&mut sp, AllocationStrategy::TopDown(None), 2, UEFI_PAGE_SIZE).unwrap();
    assert_eq!(high, AddressRange { start: BASE + SIZE - 0x2000, end: BASE + SIZE });
    let below = a
        .allocate_pages(&mut sp, AllocationStrategy::TopDown(Some(BASE + 0x5000)), 1, UEFI_PAGE_SIZE)
        .unwrap();
    assert_eq!(below.start, BASE + SIZE - 0x3000);
    let capped = a
        .allocate_pages(&mut sp, AllocationStrategy::BottomUp(Some(BASE + 0x3000)), 1, UEFI_PAGE_SIZE)
        .unwrap();
    assert_eq!(capped.start, BASE + 0x1000);
    assert_eq!(
        a.allocate_pages(&mut sp, AllocationStrategy::BottomUp(Some(BASE + 0x1000)), 1, UEFI_PAGE_SIZE),
        Err(EfiError::OutOfResources)
    );
    let exact = a
        .allocate_pages(&mut sp, AllocationStrategy::Address(BASE + 0x8000), 1, UEFI_PAGE_SIZE)
        .unwrap();
    assert_eq!(exact.start, BASE + 0x8000);
    assert_eq!(
        a.allocate_pages(&mut sp, AllocationStrategy::Address(BASE + 0x8000), 1, UEFI_PAGE_SIZE),
        Err(EfiError::OutOfResources)
    );
}

#[test]
fn malformed_page_requests_are_invalid_parameters() {
    let mut sp = space();
    let mut a = UefiAllocator::new(BOOT_SERVICES_DATA, 1, UEFI_PAGE_SIZE);
    let s = AllocationStrategy::BottomUp(None);
    assert_eq!(a.allocate_pages(&mut sp, s, 0, UEFI_PAGE_SIZE), Err(EfiError::InvalidParameter));
    assert_eq!(a.allocate_pages(&mut sp, s, 1, 0x800), Err(EfiError::InvalidParameter));
    assert_eq!(a.allocate_pages(&mut sp, s, 1, 0x1800), Err(EfiError::InvalidParameter));
    assert_eq!(
        a.allocate_pages(&mut sp, AllocationStrategy::Address(BASE + 0x10), 1, UEFI_PAGE_SIZE),
        Err(EfiError::InvalidParameter)
    );
    assert_eq!(
        a.allocate_pages(&mut sp, AllocationStrategy::TopDown(Some(BASE + 1)), 1, UEFI_PAGE_SIZE),
        Err(EfiError::InvalidParameter)
    );
    assert_eq!(
        a.allocate_pages(&mut sp, AllocationStrategy::BottomUp(Some(BASE + 0x2fff)), 1, UEFI_PAGE_SIZE),
        Err(EfiError::InvalidParameter)
    );
    assert_eq!(a.free_pages(&mut sp, BASE + 0x10, 1), Err(EfiError::InvalidParameter));
    assert_eq!(a.free_pages(&mut sp, BASE, 0), Err(EfiError::InvalidParameter));
    assert_eq!(a.free_pages(&mut sp, BASE, 1), Err(EfiError::NotFound));
    assert_eq!(a.stats().page_allocation_calls, 0);
}

#[test]
fn reservation_is_made_once() {
    let mut sp = space();
    let mut a = UefiAllocator::new(BOOT_SERVICES_DATA, 1, UEFI_PAGE_SIZE);
    assert_eq!(a.reserve_memory_pages(&mut sp, 0), Err(EfiError::InvalidParameter));
    assert_eq!(a.reserve_memory_pages(&mut sp, 4), Ok(()));
    let r = a.reserved_range().unwrap();
    assert_eq!(r, AddressRange { start: BASE, end: BASE + 0x4000 });
    assert_eq!(a.reserve_memory_pages(&mut sp, 4), Err(EfiError::AlreadyStarted));
    assert_eq!(a.reserved_range().unwrap(), r);
    assert_eq!(a.stats().reserved_size, 0x4000);
    assert_eq!(a.stats().claimed_pages, 4);
}

#[test]
fn reservation_fills_contiguously_then_spills_outside() {
    let mut sp = space();
    let mut a = UefiAllocator::new(RUNTIME_SERVICES_DATA, 1, SIZE_64KB);
    let mut other = UefiAllocator::new(LOADER_CODE, 2, UEFI_PAGE_SIZE);
    other.allocate_pages(&mut sp, AllocationStrategy::BottomUp(None), 1, UEFI_PAGE_SIZE).unwrap();
    a.reserve_memory_pages(&mut sp, 40).unwrap();
    let r = a.reserved_range().unwrap();
    assert_eq!(r.len(), 3 * SIZE_64KB);
    for i in 0..3 {
        let got = a.allocate_pages(&mut sp, AllocationStrategy::BottomUp(None), 16, UEFI_PAGE_SIZE).unwrap();
        assert_eq!(got.start, r.start + i * SIZE_64KB);
    }
    let beyond = a.allocate_pages(&mut sp, AllocationStrategy::BottomUp(None), 16, UEFI_PAGE_SIZE).unwrap();
    assert!(beyond.end <= r.start || r.end <= beyond.start);
    assert_eq!(a.stats().reserved_used, 3 * SIZE_64KB);
    assert_eq!(a.stats().claimed_pages, 48 + 16);
}

#[test]
fn pages_freed_in_the_reservation_stay_with_the_owner() {
    let mut sp = space();
    let mut a = UefiAllocator::new(RUNTIME_SERVICES_DATA, 1, UEFI_PAGE_SIZE);
    let mut b = UefiAllocator::new(BOOT_SERVICES_DATA, 2, UEFI_PAGE_SIZE);
    a.reserve_memory_pages(&mut sp, 2).unwrap();
    let r = a.allocate_pages(&mut sp, AllocationStrategy::BottomUp(None), 1, UEFI_PAGE_SIZE).unwrap();
    a.free_pages(&mut sp, r.start, 1).unwrap();
    assert_eq!(
        b.allocate_pages(&mut sp, AllocationStrategy::Address(r.start), 1, UEFI_PAGE_SIZE),
        Err(EfiError::OutOfResources)
    );
    assert_eq!(
        a.allocate_pages(&mut sp, AllocationStrategy::Address(r.start), 1, UEFI_PAGE_SIZE).unwrap(),
        r
    );
}

#[test]
fn out_of_resources_leaves_everything_unchanged() {
    let mut sp = MemorySpace::new(BASE, 0x10000).unwrap();
    let mut a = UefiAllocator::new(BOOT_SERVICES_DATA, 1, UEFI_PAGE_SIZE);
    a.allocate_pages(&mut sp, AllocationStrategy::BottomUp(None), 2, UEFI_PAGE_SIZE).unwrap();
    let states = page_states(&sp);
    let stats = a.stats();
    let ranges = a.get_memory_ranges();
    assert_eq!(
        a.allocate_pages(&mut sp, AllocationStrategy::BottomUp(None), 15, UEFI_PAGE_SIZE),
        Err(EfiError::OutOfResources)
    );
    assert_eq!(a.allocate_pool(&mut sp, 0x10000), Err(EfiError::OutOfResources));
    assert_eq!(a.allocate_pool(&mut sp, usize::MAX), Err(EfiError::OutOfResources));
    assert_eq!(a.reserve_memory_pages(&mut sp, 15), Err(EfiError::OutOfResources));
    assert_eq!(page_states(&sp), states);
    assert_eq!(a.stats(), stats);
    assert_eq!(a.get_memory_ranges(), ranges);
    let layout = Layout::from_size_align(0x20000, 8).unwrap();
    assert_eq!(a.global_alloc(&mut sp, layout), 0);
}

#[test]
fn pool_backing_ranges_are_reported_and_contained() {
    let mut sp = space();
    let mut a = UefiAllocator::new(BOOT_SERVICES_DATA, 1, SIZE_64KB);
    assert!(a.get_memory_ranges().is_empty());
    let buf = a.allocate_pool(&mut sp, 10).unwrap();
    let ranges = a.get_memory_ranges();
    assert_eq!(ranges, vec![AddressRange { start: BASE, end: BASE + SIZE_64KB }]);
    assert!(a.contains(buf));
    assert!(!a.contains(BASE + SIZE_64KB));
    assert_eq!(a.stats().claimed_pages, 16);
    assert_eq!(sp.page_state(0), PageState::Pool(uefi_memory::Owner { handle: 1, memory_type: BOOT_SERVICES_DATA }));
}

#[test]
fn large_alignment_is_honoured_by_the_pool_engine() {
    let mut sp = space();
    let mut a = UefiAllocator::new(BOOT_SERVICES_DATA, 1, UEFI_PAGE_SIZE);
    a.allocate(&mut sp, Layout::from_size_align(8, 8).unwrap()).unwrap();
    let p = a.allocate(&mut sp, Layout::from_size_align(100, 0x2000).unwrap()).unwrap();
    assert_eq!(p % 0x2000, 0);
    a.deallocate(p, Layout::from_size_align(100, 0x2000).unwrap());
    let q = a.allocate(&mut sp, Layout::from_size_align(100, 0x2000).unwrap()).unwrap();
    assert_eq!(q, p);
}

#[test]
fn dump_lists_ranges_reservation_and_counters() {
    let mut sp = space();
    let mut a = UefiAllocator::new(ACPI_MEMORY_NVS, 3, UEFI_PAGE_SIZE);
    a.reserve_memory_pages(&mut sp, 1).unwrap();
    a.allocate_pool(&mut sp, 8).unwrap();
    assert_eq!(
        a.to_string(),
        [
            "Memory Type: ACPI NVS\n",
            "Memory Type: 10\n",
            "Allocation Ranges:\n",
            "  0x10000000..0x10001000\n",
            "Bucket Range: 0x10000000..0x10001000\n",
            "Allocation Stats:\n",
            "  pool_allocation_calls: 1\n",
            "  pool_free_calls: 0\n",
            "  page_allocation_calls: 0\n",
            "  page_free_calls: 0\n",
            "  reserved_size: 4096\n",
            "  reserved_used: 4096\n",
            "  claimed_pages: 1\n",
        ]
        .concat()
    );
}

#[test]
fn reset_forgets_bookkeeping() {
    let mut sp = space();
    let mut a = UefiAllocator::new(BOOT_SERVICES_DATA, 1, UEFI_PAGE_SIZE);
    a.reserve_memory_pages(&mut sp, 2).unwrap();
    a.allocate_pool(&mut sp, 8).unwrap();
    a.reset();
    assert!(a.reserved_range().is_none());
    assert!(a.get_memory_ranges().is_empty());
    assert_eq!(a.stats(), UefiAllocator::new(BOOT_SERVICES_DATA, 1, UEFI_PAGE_SIZE).stats());
}

#[test]
fn memory_space_rejects_unaligned_or_empty_base() {
    assert_eq!(MemorySpace::new(0, 0x1000).err(), Some(EfiError::InvalidParameter));
    assert_eq!(MemorySpace::new(0x1800, 0x1000).err(), Some(EfiError::InvalidParameter));
    assert_eq!(MemorySpace::new(0x1000, 0x1001).err(), Some(EfiError::InvalidParameter));
    assert_eq!(MemorySpace::new(usize::MAX - 0xfff, 0x2000).err(), Some(EfiError::InvalidParameter));
    let s = MemorySpace::new(0x2000, 0x3000).unwrap();
    assert_eq!(s.page_count(), 3);
    assert_eq!(s.base(), 0x2000);
}

#[test]
fn layouts_follow_the_size_and_alignment_rules() {
    assert!(Layout::from_size_align(8, 3).is_err());
    assert!(Layout::from_size_align(8, 0).is_err());
    assert!(Layout::from_size_align(isize::MAX as usize, 2).is_err());
    let h = Layout::from_size_align(24, 8).unwrap();
    let (l, off) = h.extend(&Layout::from_size_align(5, 16).unwrap()).unwrap();
    assert_eq!(off, 32);
    assert_eq!(l.size(), 37);
    assert_eq!(l.align(), 16);
}

#[test]
fn memory_type_names() {
    assert_eq!(string_for_memory_type(LOADER_CODE), "Loader Code");
    assert_eq!(string_for_memory_type(RUNTIME_SERVICES_DATA), "RuntimeServices Data");
    assert_eq!(string_for_memory_type(ACPI_MEMORY_NVS), "ACPI NVS");
    assert_eq!(string_for_memory_type(0), "Unknown");
    assert_eq!(string_for_memory_type(7), "Unknown");
}
