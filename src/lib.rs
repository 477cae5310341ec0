//! Memory-type aware pool and page allocation for a UEFI DXE environment.
//!
//! The crate models the physical address space as a [`MemorySpace`]: a run of
//! pages, each free, reserved for an allocator, or owned by one, plus the pool
//! headers that live in that memory. A [`UefiAllocator`] serves one memory
//! type: byte-granular pool allocations with a validated header, page
//! allocations with placement strategies, and a one-shot contiguous
//! reservation that keeps the memory map stable from boot to boot.
//!
//! Every operation takes the allocator by `&mut` and the shared space by
//! `&mut`, so exclusive access for the whole call, on every exit path, is
//! enforced by Rust's ownership rules rather than by a run-time lock.
pub mod allocator;
pub mod display;
pub mod efi;
pub mod laws;
pub mod layout;
pub mod q35;
pub mod space;
pub mod uart;

pub use efi::{
    string_for_memory_type, EfiError, MemoryType, ACPI_MEMORY_NVS, ACPI_RECLAIM_MEMORY,
    BOOT_SERVICES_CODE, BOOT_SERVICES_DATA, LOADER_CODE, LOADER_DATA, RUNTIME_SERVICES_CODE,
    RUNTIME_SERVICES_DATA, SIZE_4KB, SIZE_64KB, UEFI_PAGE_SIZE,
};
pub use layout::{Layout, LayoutError};
pub use space::{
    AddressRange, AllocationInfo, AllocationStrategy, MemorySpace, Owner, PageState, SpaceView,
};
pub use allocator::{
    AllocationStatistics, AllocatorView, PoolBlock, UefiAllocator,
    DEFAULT_PAGE_ALLOCATION_GRANULARITY, POOL_HEADER_SIZE, POOL_SIG, UEFI_POOL_ALIGN,
};
pub use uart::{hack_tag, Uart};
pub use q35::{
    MmCommRegionHob, MmConfigurationProvider, MmSupervisorVersion, Q35SmbiosPlatform,
    QemuQ35MmTest, SmbiosExamplePublisher, SmbiosTablePublisher,
};
