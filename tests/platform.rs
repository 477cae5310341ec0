use uefi_memory::q35::{pci_address, pm_timer_delta, target_ticks, tsc_frequency};
use uefi_memory::uart::{LSR_REGISTER_OFFSET, THR_REGISTER_OFFSET};
use uefi_memory::{
    hack_tag, MmCommRegionHob, MmConfigurationProvider, MmSupervisorVersion, Q35SmbiosPlatform,
    QemuQ35MmTest, SmbiosExamplePublisher, SmbiosTablePublisher, Uart,
};

#[test]
fn boot_tag_bytes() {
    assert_eq!(hack_tag(1), b"XXX_1\n".to_vec());
    assert_eq!(hack_tag(9), b"XXX_9\n".to_vec());
    assert_eq!(hack_tag(256 + 3), b"XXX_3\n".to_vec());
}

#[test]
fn uart_registers_and_line_status() {
    let uart = Uart::new(0x16A00000);
    assert_eq!(uart.base_address(), 0x16A00000);
    assert_eq!(uart.register_address(LSR_REGISTER_OFFSET), Some(0x16A00014));
    assert_eq!(uart.register_address(THR_REGISTER_OFFSET), Some(0x16A00000));
    assert_eq!(Uart::new(usize::MAX).register_address(LSR_REGISTER_OFFSET), None);
    assert!(Uart::can_transmit(0x60));
    assert!(Uart::can_transmit(0x61));
    assert!(!Uart::can_transmit(0x20));
    assert!(!Uart::can_transmit(0x40));
    assert!(Uart::has_received(0x01));
    assert!(!Uart::has_received(0x60));
}

#[test]
fn pm_base_register_of_the_lpc_bridge() {
    assert_eq!(pci_address(0, 0x1F, 0, 0x40), 0xF8040);
    assert_eq!(pci_address(1, 2, 3, 4), 0x100000 + 0x10000 + 0x3000 + 4);
    assert_eq!(MmConfigurationProvider::pm_base_register_address(), 0xB00F8040);
    assert_eq!(MmConfigurationProvider::acpi_base(0x0601), 0x0600);
}

#[test]
fn mm_comm_region_size_and_type() {
    let hob = MmCommRegionHob::new(0x1_02, 0x7F00_0000, 4);
    assert_eq!(hob.address(), 0x7F00_0000);
    assert_eq!(hob.pages(), 4);
    assert_eq!(hob.buffer_type(), 0x102);
    assert_eq!(hob.buffer_size(), Some(0x4000));
    assert_eq!(hob.buffer_type_code(), 2);
    assert_eq!(MmCommRegionHob::new(0, 0, u64::MAX).buffer_size(), None);
    assert_eq!(MmCommRegionHob::default().buffer_size(), Some(0));
}

#[test]
fn mm_supervisor_version_request_and_reply() {
    let _ = QemuQ35MmTest::new();
    let request = QemuQ35MmTest::version_request();
    assert_eq!(request.len(), 24);
    assert_eq!(&request[0..4], b"MSUP");
    assert_eq!(u32::from_le_bytes([request[4], request[5], request[6], request[7]]), 1);
    assert_eq!(u32::from_le_bytes([request[8], request[9], request[10], request[11]]), 3);
    assert!(request[12..].iter().all(|b| *b == 0));

    let mut reply = request.clone();
    reply.extend_from_slice(&0x0001_0002u32.to_le_bytes());
    reply.extend_from_slice(&7u32.to_le_bytes());
    reply.extend_from_slice(&0x1_0000_0003u64.to_le_bytes());
    assert_eq!(
        QemuQ35MmTest::parse_version_reply(&reply),
        Some(MmSupervisorVersion { version: 0x0001_0002, patch_level: 7, max_supervisor_request_level: 0x1_0000_0003 })
    );
    reply.pop();
    assert_eq!(QemuQ35MmTest::parse_version_reply(&reply), None);
}

#[test]
fn smbios_record_names_and_end_of_table() {
    let _ = SmbiosExamplePublisher::new();
    let _ = Q35SmbiosPlatform::new();
    let _ = SmbiosTablePublisher::new();
    assert_eq!(SmbiosExamplePublisher::record_type_name(0), "BIOS Information");
    assert_eq!(SmbiosExamplePublisher::record_type_name(19), "Memory Array Mapped Address");
    assert_eq!(SmbiosExamplePublisher::record_type_name(127), "End-of-Table");
    assert_eq!(SmbiosExamplePublisher::record_type_name(5), "Other");
    assert_eq!(SmbiosExamplePublisher::end_of_table_record(), vec![127, 4, 0xFF, 0xFF, 0, 0]);
}

#[test]
fn tsc_calibration_arithmetic() {
    assert_eq!(target_ticks(), 178_977);
    assert_eq!(pm_timer_delta(10, 30), 20);
    assert_eq!(pm_timer_delta(0xFFFF_FFF0, 0x10), 0x20);
    // 178977 PM ticks are 49_999_930 ns; 100_000_000 TSC ticks over that are about 2 GHz.
    assert_eq!(tsc_frequency(178_977, 100_000_000), Some(2_000_002_800));
    assert_eq!(tsc_frequency(0, 5), None);
    assert_eq!(tsc_frequency(1000, u64::MAX), None);
}
