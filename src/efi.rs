//! UEFI vocabulary shared by the allocator: memory types, sizes and status codes.
use vstd::prelude::*;

verus! {

/// A UEFI memory type code (`EFI_MEMORY_TYPE`).
pub type MemoryType = u32;

pub const LOADER_CODE: MemoryType = 1;

pub const LOADER_DATA: MemoryType = 2;

pub const BOOT_SERVICES_CODE: MemoryType = 3;

pub const BOOT_SERVICES_DATA: MemoryType = 4;

pub const RUNTIME_SERVICES_CODE: MemoryType = 5;

pub const RUNTIME_SERVICES_DATA: MemoryType = 6;

pub const ACPI_RECLAIM_MEMORY: MemoryType = 9;

pub const ACPI_MEMORY_NVS: MemoryType = 10;

/// Size of a UEFI page in bytes.
pub const UEFI_PAGE_SIZE: usize = 0x1000;

pub const SIZE_4KB: usize = 0x1000;

pub const SIZE_64KB: usize = 0x10000;

/// The conditions an allocator operation reports to its caller.
#[derive(Debug, Clone, Copy, PartialEq, Eq, Structural)]
pub enum EfiError {
    /// The memory space could not supply the requested memory.
    OutOfResources,
    /// The memory named by the request does not belong to this allocator.
    NotFound,
    /// A caller-supplied address or size could not be interpreted.
    InvalidParameter,
    /// A one-shot operation was invoked a second time.
    AlreadyStarted,
}

/// The human-readable name of a memory type, as used in diagnostics.
pub open spec fn memory_type_name(memory_type: MemoryType) -> Seq<char> {
    if memory_type == LOADER_CODE {
        "Loader Code"@
    } else if memory_type == LOADER_DATA {
        "Loader Data"@
    } else if memory_type == BOOT_SERVICES_CODE {
        "BootServices Code"@
    } else if memory_type == BOOT_SERVICES_DATA {
        "BootServices Data"@
    } else if memory_type == RUNTIME_SERVICES_CODE {
        "RuntimeServices Code"@
    } else if memory_type == RUNTIME_SERVICES_DATA {
        "RuntimeServices Data"@
    } else if memory_type == ACPI_RECLAIM_MEMORY {
        "ACPI Reclaim"@
    } else if memory_type == ACPI_MEMORY_NVS {
        "ACPI NVS"@
    } else {
        "Unknown"@
    }
}

/// Returns the name of `memory_type`; codes outside the vocabulary are "Unknown".
pub fn string_for_memory_type(memory_type: MemoryType) -> (r: &'static str)
    ensures
        r@ == memory_type_name(memory_type),
{
    proof {
        reveal_strlit("Loader Code");
        reveal_strlit("Loader Data");
        reveal_strlit("BootServices Code");
        reveal_strlit("BootServices Data");
        reveal_strlit("RuntimeServices Code");
        reveal_strlit("RuntimeServices Data");
        reveal_strlit("ACPI Reclaim");
        reveal_strlit("ACPI NVS");
        reveal_strlit("Unknown");
    }
    match memory_type {
        LOADER_CODE => "Loader Code",
        LOADER_DATA => "Loader Data",
        BOOT_SERVICES_CODE => "BootServices Code",
        BOOT_SERVICES_DATA => "BootServices Data",
        RUNTIME_SERVICES_CODE => "RuntimeServices Code",
        RUNTIME_SERVICES_DATA => "RuntimeServices Data",
        ACPI_RECLAIM_MEMORY => "ACPI Reclaim",
        ACPI_MEMORY_NVS => "ACPI NVS",
        _ => "Unknown",
    }
}

} // verus!
