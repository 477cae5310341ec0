use uefi_memory::{
    AllocationStrategy, EfiError, Layout, MemorySpace, UefiAllocator, BOOT_SERVICES_CODE,
    BOOT_SERVICES_DATA, DEFAULT_PAGE_ALLOCATION_GRANULARITY, LOADER_DATA, POOL_HEADER_SIZE,
    POOL_SIG, RUNTIME_SERVICES_DATA, SIZE_4KB, SIZE_64KB, UEFI_PAGE_SIZE, UEFI_POOL_ALIGN,
};

const GCD_BASE: usize = 0x1000_0000;
const GCD_SIZE: usize = 0x400000;

fn init_gcd(size: usize) -> (MemorySpace, u64) {
    let space = MemorySpace::new(GCD_BASE, size).unwrap();
    (space, GCD_BASE as u64)
}

// Runs the check once with the default page-allocation granularity and once with 64KB.
fn with_granularity_modulation<F: Fn(usize)>(f: F) {
    f(DEFAULT_PAGE_ALLOCATION_GRANULARITY);
    f(SIZE_64KB);
}

const DEFAULT_ALLOCATION_STRATEGY: AllocationStrategy = AllocationStrategy::BottomUp(None);

#[test]
fn test_uefi_allocator_new() {
    let ua = UefiAllocator::new(BOOT_SERVICES_DATA, 1, DEFAULT_PAGE_ALLOCATION_GRANULARITY);
    assert_eq!(ua.memory_type(), BOOT_SERVICES_DATA);
}

#[test]
fn test_allocate_pool() {
    with_granularity_modulation(|granularity| {
        let (mut gcd, base) = init_gcd(GCD_SIZE);
        let mut ua = UefiAllocator::new(RUNTIME_SERVICES_DATA, 1, granularity);

        let buffer = ua.allocate_pool(&mut gcd, 0x1000);
        assert!(buffer.is_ok());
        let buffer = buffer.unwrap();
        assert!(buffer as u64 > base);
        assert!((buffer as u64) < base + 0x400000);

        let (layout, offset) = Layout::from_size_align(POOL_HEADER_SIZE, UEFI_POOL_ALIGN)
            .unwrap()
            .extend(&Layout::from_size_align(0x1000, UEFI_POOL_ALIGN).unwrap())
            .unwrap();

        let allocation_info = gcd.header(buffer - offset).unwrap();
        assert_eq!(allocation_info.signature, POOL_SIG);
        assert_eq!(allocation_info.memory_type, RUNTIME_SERVICES_DATA);
        assert_eq!(allocation_info.layout, layout)
    });
}

#[test]
fn test_free_pool() {
    with_granularity_modulation(|granularity| {
        let (mut gcd, base) = init_gcd(GCD_SIZE);
        let mut ua = UefiAllocator::new(RUNTIME_SERVICES_DATA, 1, granularity);

        let buffer = ua.allocate_pool(&mut gcd, 0x1000);
        assert!(buffer.is_ok());
        let buffer = buffer.unwrap();

        assert!(ua.free_pool(&mut gcd, buffer).is_ok());

        let (_, offset) = Layout::from_size_align(POOL_HEADER_SIZE, UEFI_POOL_ALIGN)
            .unwrap()
            .extend(&Layout::from_size_align(0x1000, UEFI_POOL_ALIGN).unwrap())
            .unwrap();

        let allocation_info = gcd.header(buffer - offset).unwrap();
        assert_eq!(allocation_info.signature, 0);

        let prev_buffer = buffer;
        let buffer = ua.allocate_pool(&mut gcd, 0x1000);
        assert!(buffer.is_ok());
        let buffer = buffer.unwrap();
        assert!(buffer as u64 > base);
        assert!((buffer as u64) < base + 0x400000);
        assert_eq!(buffer, prev_buffer);
    });
}

#[test]
fn test_allocate_and_free_pages() {
    with_granularity_modulation(|granularity| {
        let (mut gcd, base) = init_gcd(GCD_SIZE);
        let mut ua = UefiAllocator::new(RUNTIME_SERVICES_DATA, 1, granularity);

        let buffer = ua.allocate_pages(&mut gcd, DEFAULT_ALLOCATION_STRATEGY, 4, UEFI_PAGE_SIZE).unwrap();
        let buffer_address = buffer.start as u64;
        assert_eq!(buffer_address & 0xFFF, 0); // must be page aligned.
        assert_eq!(buffer.len(), std::cmp::max(granularity, UEFI_PAGE_SIZE * 4)); // 4 pages or granularity pages in size.
        assert!(buffer_address >= base);
        assert!(buffer_address < base + 0x400000);

        ua.free_pages(&mut gcd, buffer_address as usize, 4).unwrap();

        let buffer = ua
            .allocate_pages(&mut gcd, AllocationStrategy::Address(buffer_address as usize), 4, UEFI_PAGE_SIZE)
            .unwrap();
        let buffer_address2 = buffer.start as u64;
        assert_eq!(buffer_address, buffer_address2);
        assert_eq!(buffer.len(), std::cmp::max(granularity, UEFI_PAGE_SIZE * 4));

        ua.free_pages(&mut gcd, buffer_address2 as usize, 4).unwrap();
    });
}

#[test]
fn free_pages_should_only_succeed_in_the_source_allocator() {
    let (mut gcd, _) = init_gcd(GCD_SIZE);

    let mut bs_allocator = UefiAllocator::new(BOOT_SERVICES_DATA, 1, DEFAULT_PAGE_ALLOCATION_GRANULARITY);
    let mut bc_allocator = UefiAllocator::new(BOOT_SERVICES_CODE, 2, DEFAULT_PAGE_ALLOCATION_GRANULARITY);

    let bs_buffer = bs_allocator.allocate_pages(&mut gcd, DEFAULT_ALLOCATION_STRATEGY, 4, UEFI_PAGE_SIZE).unwrap();
    let bc_buffer = bc_allocator.allocate_pages(&mut gcd, DEFAULT_ALLOCATION_STRATEGY, 4, UEFI_PAGE_SIZE).unwrap();

    let bs_buffer_address = bs_buffer.start;
    let bc_buffer_address = bc_buffer.start;

    assert_eq!(bs_allocator.free_pages(&mut gcd, bc_buffer_address, 4), Err(EfiError::NotFound));
    assert_eq!(bc_allocator.free_pages(&mut gcd, bs_buffer_address, 4), Err(EfiError::NotFound));

    bs_allocator.free_pages(&mut gcd, bs_buffer_address, 4).unwrap();
    bc_allocator.free_pages(&mut gcd, bc_buffer_address, 4).unwrap();
}

#[test]
fn test_system_alloc_dealloc() {
    with_granularity_modulation(|granularity| {
        let (mut gcd, _) = init_gcd(GCD_SIZE);
        let mut ua = UefiAllocator::new(RUNTIME_SERVICES_DATA, 1, granularity);

        let layout = Layout::from_size_align(0x8, 0x8).unwrap();
        let a = ua.global_alloc(&mut gcd, layout);
        ua.dealloc(a, layout);

        let a = ua.global_alloc(&mut gcd, layout);
        ua.deallocate(a, layout);
    });
}

#[test]
fn test_contains() {
    let (mut gcd, _) = init_gcd(GCD_SIZE);
    let mut ua = UefiAllocator::new(BOOT_SERVICES_DATA, 1, DEFAULT_PAGE_ALLOCATION_GRANULARITY);

    let layout = Layout::from_size_align(0x8, 0x8).unwrap();
    let allocation = ua.allocate(&mut gcd, layout).unwrap();
    assert!(ua.contains(allocation));
}

#[test]
fn test_uefi_allocator_fn_conformance() {
    let (_gcd, _) = init_gcd(GCD_SIZE);
    let ua = UefiAllocator::new(BOOT_SERVICES_DATA, 1, DEFAULT_PAGE_ALLOCATION_GRANULARITY);
    assert_eq!(ua.memory_type(), BOOT_SERVICES_DATA);
    assert_eq!(ua.handle(), 1);

    assert_eq!(
        ua.to_string(),
        [
            "Memory Type: BootServices Data\n",
            "Memory Type: 4\n",
            "Allocation Ranges:\n",
            "Bucket Range: None\n",
            "Allocation Stats:\n",
            "  pool_allocation_calls: 0\n",
            "  pool_free_calls: 0\n",
            "  page_allocation_calls: 0\n",
            "  page_free_calls: 0\n",
            "  reserved_size: 0\n",
            "  reserved_used: 0\n",
            "  claimed_pages: 0\n",
        ]
        .concat()
    );
}

#[test]
fn reserve_memory_pages_reserves_the_pages() {
    with_granularity_modulation(|granularity| {
        let (mut gcd, base) = init_gcd(GCD_SIZE);
        let gcd_range = base..base + 0x400000;

        let mut reserved_allocator = UefiAllocator::new(RUNTIME_SERVICES_DATA, 1, granularity);
        reserved_allocator.reserve_memory_pages(&mut gcd, 0x100).unwrap();

        let mut unreserved_allocator = UefiAllocator::new(LOADER_DATA, 2, DEFAULT_PAGE_ALLOCATION_GRANULARITY);

        // check that the ranges are set up.
        let reserved = reserved_allocator.reserved_range().unwrap();
        let reserved_range = reserved.start as u64..reserved.end as u64;
        assert!(gcd_range.contains(&reserved_range.start));
        assert!(gcd_range.contains(&(reserved_range.end - 1)));

        assert!(unreserved_allocator.reserved_range().is_none());

        let mut reserved_page_addr = 0;

        // the first 0x100 pages from the reserved allocator are in the reserved range, and allocating from the
        // unreserved allocator at the same time neither lands in the reserved range nor makes the reserved
        // allocator fail.
        for page in 0..0x100 {
            // at 64KB granularity 16 pages are allocated at once, so only every 16th page is requested.
            if granularity == SIZE_4KB || page % 16 == 0 {
                let reserved_page = reserved_allocator
                    .allocate_pages(&mut gcd, DEFAULT_ALLOCATION_STRATEGY, 1, UEFI_PAGE_SIZE)
                    .unwrap();
                reserved_page_addr = reserved_page.start as u64;
            } else {
                reserved_page_addr += UEFI_PAGE_SIZE as u64;
            }
            assert!(reserved_range.contains(&(reserved_page_addr)));
            assert!(reserved_range.contains(&(reserved_page_addr + 0xFFF)));

            let unreserved_page = unreserved_allocator
                .allocate_pages(&mut gcd, DEFAULT_ALLOCATION_STRATEGY, 1, UEFI_PAGE_SIZE)
                .unwrap();
            let unreserved_page_addr = unreserved_page.start as u64;
            assert!(!reserved_range.contains(&(unreserved_page_addr)));
            assert!(!reserved_range.contains(&(unreserved_page_addr + 0xFFF)));
        }

        // further page allocations from the reserved allocator are outside the reserved range but succeed.
        let reserved_page =
            reserved_allocator.allocate_pages(&mut gcd, DEFAULT_ALLOCATION_STRATEGY, 1, UEFI_PAGE_SIZE).unwrap();
        let reserved_page_addr = reserved_page.start as u64;
        assert!(!reserved_range.contains(&(reserved_page_addr)));
        assert!(!reserved_range.contains(&(reserved_page_addr + 0xFFF)));

        // once that allocation outside the reserved range is freed, other allocators can use it.
        reserved_allocator.free_pages(&mut gcd, reserved_page_addr as usize, 1).unwrap();
        let unreserved_page = unreserved_allocator
            .allocate_pages(&mut gcd, AllocationStrategy::Address(reserved_page_addr as usize), 1, UEFI_PAGE_SIZE)
            .unwrap();
        let unreserved_page_addr = unreserved_page.start as u64;
        assert_eq!(
            reserved_page_addr, unreserved_page_addr,
            "reserved_page_addr: {reserved_page_addr:#x?}, unreserved_page_addr: {unreserved_page_addr:#x?}",
        );

        // pages freed within the reserved range cannot be used by other allocators.
        reserved_allocator.free_pages(&mut gcd, reserved_range.start as usize, 0x10).unwrap();
        let unreserved_page =
            unreserved_allocator.allocate_pages(&mut gcd, DEFAULT_ALLOCATION_STRATEGY, 1, UEFI_PAGE_SIZE).unwrap();
        let unreserved_page_addr = unreserved_page.start as u64;
        assert!(!reserved_range.contains(&(unreserved_page_addr)));
        assert!(!reserved_range.contains(&(unreserved_page_addr + 0xFFF)));

        let mut reserved_page_addr = 0;
        // pages freed within the reserved range are reused by the reserving allocator.
        for page in 0..0x10 {
            if granularity == SIZE_4KB || page == 0 {
                let reserved_page = reserved_allocator
                    .allocate_pages(&mut gcd, DEFAULT_ALLOCATION_STRATEGY, 1, UEFI_PAGE_SIZE)
                    .unwrap();
                reserved_page_addr = reserved_page.start as u64;
            } else {
                reserved_page_addr += UEFI_PAGE_SIZE as u64;
            }

            assert!(reserved_range.contains(&(reserved_page_addr)));
            assert!(reserved_range.contains(&(reserved_page_addr + 0xFFF)));
        }
    });
}
