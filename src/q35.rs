//! QEMU Q35 platform pieces: the register map, Management Mode (MM)
//! configuration and test messages, SMBIOS helpers, and the arithmetic of TSC
//! calibration against the ACPI PM timer. The port and MMIO accesses, and the
//! firmware services these pieces feed, are outside this crate.
use crate::efi::UEFI_PAGE_SIZE;
use vstd::prelude::*;

verus! {

/// Base address of the PCI Express configuration space (ECAM).
pub const PCI_EXPRESS_BASE_ADDRESS: u64 = 0xB0000000;

/// ICH9 Power Management Base register offset.
pub const PMBASE: u32 = 0x40;

/// ICH9 Power Management Base register mask.
pub const PMBASE_MASK: u16 = 0xFF00;

/// SMI Enable offset (from PMBASE).
pub const PMBASE_OFS_SMI_EN: u32 = 0x30;

/// Global SMI Enable bit.
pub const SMI_EN_GBL_SMI_EN: u32 = 0x01;

/// APMC Enable bit.
pub const SMI_EN_APMC_EN: u32 = 0x20;

/// ICH9 General PM Control 1 register offset.
pub const GEN_PMCON_1: u32 = 0xA0;

/// SMI Lock bit.
pub const GEN_PMCON_1_SMI_LOCK: u16 = 0x10;

/// Nominal frequency of the ACPI PM timer in Hz.
pub const DEFAULT_ACPI_TIMER_FREQUENCY: u64 = 3_579_545;

/// Calibration measures over one twentieth of a second.
pub const TARGET_INTERVAL_SIZE: u64 = 20;

/// Offset of a configuration register in the PCI Express configuration space.
pub open spec fn spec_pci_address(bus: int, device: int, function: int, register: int) -> int {
    bus * 0x100000 + device * 0x8000 + function * 0x1000 + register
}

/// Offset of `register` of `bus`/`device`/`function` in the PCI Express
/// configuration space: bus, device and function select 1 MiB, 32 KiB and
/// 4 KiB windows.
pub fn pci_address(bus: u32, device: u32, function: u32, register: u32) -> (r: u32)
    requires
        bus < 256,
        device < 32,
        function < 8,
        register < 0x1000,
    ensures
        r == spec_pci_address(bus as int, device as int, function as int, register as int),
{
    bus * 0x100000 + device * 0x8000 + function * 0x1000 + register
}

/// Produces the MM configuration of the platform for other components.
pub struct MmConfigurationProvider;

impl MmConfigurationProvider {
    /// Address of the ICH9 PMBASE register of the LPC bridge (bus 0, device 0x1F).
    pub fn pm_base_register_address() -> (r: u64)
        ensures
            r == PCI_EXPRESS_BASE_ADDRESS + spec_pci_address(0, 0x1F, 0, PMBASE as int),
    {
        PCI_EXPRESS_BASE_ADDRESS + pci_address(0, 0x1F, 0, PMBASE) as u64
    }

    /// The ACPI I/O port base held in a PMBASE register value.
    pub fn acpi_base(pm_base_value: u16) -> (r: u16)
        ensures
            r == pm_base_value & PMBASE_MASK,
    {
        pm_base_value & PMBASE_MASK
    }
}

/// An MM communication region described by the boot firmware: a buffer type,
/// the address of its first page, and its size in pages.
#[derive(Default, Clone, Copy)]
pub struct MmCommRegionHob {
    buffer_type: u64,
    address: u64,
    pages: u64,
}

impl MmCommRegionHob {
    pub closed spec fn spec_buffer_type(&self) -> u64 {
        self.buffer_type
    }

    pub closed spec fn spec_address(&self) -> u64 {
        self.address
    }

    pub closed spec fn spec_pages(&self) -> u64 {
        self.pages
    }

    pub fn new(buffer_type: u64, address: u64, pages: u64) -> (r: MmCommRegionHob)
        ensures
            r.spec_buffer_type() == buffer_type,
            r.spec_address() == address,
            r.spec_pages() == pages,
    {
        MmCommRegionHob { buffer_type, address, pages }
    }

    pub fn buffer_type(&self) -> (r: u64)
        ensures
            r == self.spec_buffer_type(),
    {
        self.buffer_type
    }

    pub fn address(&self) -> (r: u64)
        ensures
            r == self.spec_address(),
    {
        self.address
    }

    pub fn pages(&self) -> (r: u64)
        ensures
            r == self.spec_pages(),
    {
        self.pages
    }

    /// Size of the region in bytes, or `None` when it does not fit in `usize`.
    pub fn buffer_size(&self) -> (r: Option<usize>)
        ensures
            match r {
                Some(n) => n == self.spec_pages() * UEFI_PAGE_SIZE,
                None => self.spec_pages() * UEFI_PAGE_SIZE > usize::MAX,
            },
    {
        if self.pages > (usize::MAX / UEFI_PAGE_SIZE) as u64 {
            return None;
        }
        Some(self.pages as usize * UEFI_PAGE_SIZE)
    }

    /// The buffer type as the one-byte code that MM communication uses.
    pub fn buffer_type_code(&self) -> (r: u8)
        ensures
            r == self.spec_buffer_type() % 256,
    {
        (self.buffer_type % 256) as u8
    }
}

/// Exercises MM communication by asking the MM supervisor for its version.
#[derive(Default)]
pub struct QemuQ35MmTest;

/// The version information the MM supervisor returns.
#[derive(Debug, Clone, Copy, PartialEq, Eq, Structural)]
pub struct MmSupervisorVersion {
    pub version: u32,
    pub patch_level: u32,
    pub max_supervisor_request_level: u64,
}

/// Size of the MM supervisor request header in bytes.
pub const MM_SUPERVISOR_REQUEST_HEADER_SIZE: usize = 24;

/// The little-endian `u32` at `off` in `s`.
pub open spec fn le_u32(s: Seq<u8>, off: int) -> int {
    s[off] + s[off + 1] * 0x100 + s[off + 2] * 0x10000 + s[off + 3] * 0x1000000
}

/// The little-endian `u64` at `off` in `s`.
pub open spec fn le_u64(s: Seq<u8>, off: int) -> int {
    le_u32(s, off) + le_u32(s, off + 4) * 0x1_0000_0000
}

fn read_le_u32(s: &Vec<u8>, off: usize) -> (r: u32)
    requires
        off + 4 <= s@.len(),
    ensures
        r == le_u32(s@, off as int),
{
    let len = s.len();
    assert(off + 4 <= len);
    let b0 = s[off] as u32;
    let b1 = s[off + 1] as u32;
    let b2 = s[off + 2] as u32;
    let b3 = s[off + 3] as u32;
    assert(b0 <= 255 && b1 <= 255 && b2 <= 255 && b3 <= 255);
    b0 + b1 * 0x100 + b2 * 0x10000 + b3 * 0x1000000
}

impl QemuQ35MmTest {
    pub fn new() -> (r: QemuQ35MmTest) {
        QemuQ35MmTest
    }

    /// The request header asking the MM supervisor for its version: the
    /// signature `MSUP`, revision 1, request 3, and zeroed reserved and
    /// result fields, little-endian.
    pub fn version_request() -> (r: Vec<u8>)
        ensures
            r@ == seq![
                77u8, 83u8, 85u8, 80u8, 1u8, 0u8, 0u8, 0u8, 3u8, 0u8, 0u8, 0u8,
                0u8, 0u8, 0u8, 0u8, 0u8, 0u8, 0u8, 0u8, 0u8, 0u8, 0u8, 0u8,
            ],
    {
        let mut r: Vec<u8> = Vec::new();
        r.push(77u8);
        r.push(83u8);
        r.push(85u8);
        r.push(80u8);
        r.push(1u8);
        r.push(0u8);
        r.push(0u8);
        r.push(0u8);
        r.push(3u8);
        let mut i: usize = 9;
        while i < MM_SUPERVISOR_REQUEST_HEADER_SIZE
            invariant
                9 <= i <= MM_SUPERVISOR_REQUEST_HEADER_SIZE,
                r@.len() == i,
                r@.take(9) == seq![77u8, 83u8, 85u8, 80u8, 1u8, 0u8, 0u8, 0u8, 3u8],
                forall|x: int| 9 <= x < i ==> r@[x] == 0u8,
            decreases MM_SUPERVISOR_REQUEST_HEADER_SIZE - i,
        {
            r.push(0u8);
            proof {
                assert(r@.take(9) =~= r@.take(i as int).take(9));
            }
            i = i + 1;
        }
        proof {
            assert(r@ =~= seq![
                77u8, 83u8, 85u8, 80u8, 1u8, 0u8, 0u8, 0u8, 3u8, 0u8, 0u8, 0u8,
                0u8, 0u8, 0u8, 0u8, 0u8, 0u8, 0u8, 0u8, 0u8, 0u8, 0u8, 0u8,
            ]) by {
                assert(r@.take(9)[0] == r@[0]);
                assert(r@.take(9)[1] == r@[1]);
                assert(r@.take(9)[2] == r@[2]);
                assert(r@.take(9)[3] == r@[3]);
                assert(r@.take(9)[4] == r@[4]);
                assert(r@.take(9)[8] == r@[8]);
            }
        }
        r
    }

    /// The version information that follows the request header in the
    /// supervisor's reply, or `None` when the reply is too short to hold it.
    pub fn parse_version_reply(reply: &Vec<u8>) -> (r: Option<MmSupervisorVersion>)
        ensures
            match r {
                Some(v) => {
                    &&& reply@.len() >= MM_SUPERVISOR_REQUEST_HEADER_SIZE + 16
                    &&& v.version == le_u32(reply@, 24)
                    &&& v.patch_level == le_u32(reply@, 28)
                    &&& v.max_supervisor_request_level == le_u64(reply@, 32)
                },
                None => reply@.len() < MM_SUPERVISOR_REQUEST_HEADER_SIZE + 16,
            },
    {
        if reply.len() < MM_SUPERVISOR_REQUEST_HEADER_SIZE + 16 {
            return None;
        }
        let version = read_le_u32(reply, 24);
        let patch_level = read_le_u32(reply, 28);
        let low = read_le_u32(reply, 32) as u64;
        let high = read_le_u32(reply, 36) as u64;
        Some(
            MmSupervisorVersion {
                version,
                patch_level,
                max_supervisor_request_level: low + high * 0x1_0000_0000,
            },
        )
    }
}

/// Adds example SMBIOS records and lists the records present.
pub struct SmbiosExamplePublisher;

/// The name of an SMBIOS structure type, as the record listing prints it.
pub open spec fn smbios_type_name(record_type: u8) -> Seq<char> {
    if record_type == 0 {
        "BIOS Information"@
    } else if record_type == 1 {
        "System Information"@
    } else if record_type == 2 {
        "Baseboard Information"@
    } else if record_type == 3 {
        "System Enclosure"@
    } else if record_type == 4 {
        "Processor Information"@
    } else if record_type == 16 {
        "Physical Memory Array"@
    } else if record_type == 17 {
        "Memory Device"@
    } else if record_type == 19 {
        "Memory Array Mapped Address"@
    } else if record_type == 32 {
        "System Boot Information"@
    } else if record_type == 127 {
        "End-of-Table"@
    } else {
        "Other"@
    }
}

impl SmbiosExamplePublisher {
    pub fn new() -> (r: SmbiosExamplePublisher) {
        SmbiosExamplePublisher
    }

    /// The name of SMBIOS structure type `record_type`.
    pub fn record_type_name(record_type: u8) -> (r: &'static str)
        ensures
            r@ == smbios_type_name(record_type),
    {
        match record_type {
            0 => "BIOS Information",
            1 => "System Information",
            2 => "Baseboard Information",
            3 => "System Enclosure",
            4 => "Processor Information",
            16 => "Physical Memory Array",
            17 => "Memory Device",
            19 => "Memory Array Mapped Address",
            32 => "System Boot Information",
            127 => "End-of-Table",
            _ => "Other",
        }
    }

    /// The End-of-Table structure (type 127): a four-byte header with handle
    /// 0xFFFF and an empty string set.
    pub fn end_of_table_record() -> (r: Vec<u8>)
        ensures
            r@ == seq![127u8, 4u8, 0xFFu8, 0xFFu8, 0u8, 0u8],
    {
        let mut r: Vec<u8> = Vec::new();
        r.push(127u8);
        r.push(4u8);
        r.push(0xFFu8);
        r.push(0xFFu8);
        r.push(0u8);
        r.push(0u8);
        proof {
            assert(r@ =~= seq![127u8, 4u8, 0xFFu8, 0xFFu8, 0u8, 0u8]);
        }
        r
    }
}

/// Adds the platform SMBIOS records and publishes the table.
#[derive(Default)]
pub struct Q35SmbiosPlatform;

impl Q35SmbiosPlatform {
    pub fn new() -> (r: Q35SmbiosPlatform) {
        Q35SmbiosPlatform
    }
}

/// Publishes the SMBIOS table once all records are added.
pub struct SmbiosTablePublisher;

impl SmbiosTablePublisher {
    pub fn new() -> (r: SmbiosTablePublisher) {
        SmbiosTablePublisher
    }
}

/// PM timer ticks in one calibration interval.
pub fn target_ticks() -> (r: u32)
    ensures
        r == DEFAULT_ACPI_TIMER_FREQUENCY / TARGET_INTERVAL_SIZE,
{
    (DEFAULT_ACPI_TIMER_FREQUENCY / TARGET_INTERVAL_SIZE) as u32
}

/// PM timer ticks from `start` to `end`, across a counter wrap.
pub fn pm_timer_delta(start: u32, end: u32) -> (r: u32)
    ensures
        r == (if end >= start {
            end - start
        } else {
            end + 0x1_0000_0000 - start
        }),
{
    end.wrapping_sub(start)
}

/// The TSC frequency in Hz when `delta_tsc` TSC ticks elapse over `delta_pm`
/// PM timer ticks; `None` when the interval is shorter than a nanosecond or
/// the product overflows.
pub fn tsc_frequency(delta_pm: u32, delta_tsc: u64) -> (r: Option<u64>)
    ensures
        ({
            let ns = delta_pm * 1_000_000_000 / DEFAULT_ACPI_TIMER_FREQUENCY as int;
            match r {
                Some(f) => ns > 0 && delta_tsc * 1_000_000_000 <= u64::MAX && f == delta_tsc
                    * 1_000_000_000 / ns,
                None => ns == 0 || delta_tsc * 1_000_000_000 > u64::MAX,
            }
        }),
{
    let delta_time_ns = (delta_pm as u64 * 1_000_000_000) / DEFAULT_ACPI_TIMER_FREQUENCY;
    if delta_time_ns == 0 {
        return None;
    }
    match delta_tsc.checked_mul(1_000_000_000) {
        Some(ticks) => Some(ticks / delta_time_ns),
        None => None,
    }
}

} // verus!
