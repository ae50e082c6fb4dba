use ghostos::cpu::{
    check_features, configuration, ExtendedProcessorState, ExtendedStateConfiguration,
    MissingFeature, ProcessorFeatures, XSAVE_AREA_SIZE,
};
use ghostos::e1000::{
    check_command, check_reset, configure_rx_ring_ops, enabled_command, find, find_bars,
    reset_finish_ops, reset_quiesce_ops, reset_request_ops, rx_buffer_addresses, write_register_io,
    Error, StatusRegister, REGISTER_SPACE_SIZE,
};
use ghostos::io::PortOp;
use ghostos::mmio::{MmioOp, MmioRegion};
use ghostos::net::MacAddress;
use ghostos::pci::{CommandRegister, ConfigSpace, FunctionAddress, IoBar, MemoryBar, MemoryBarWidth};
use ghostos::qemu::{exit_qemu, QemuExitCode};

fn space_with(entries: &[(usize, u32)]) -> ConfigSpace {
    let mut dwords = vec![0u32; 64];
    for &(i, v) in entries {
        dwords[i] = v;
    }
    ConfigSpace::new(dwords)
}

#[test]
fn mac_address_from_receive_address_registers() {
    let mac = MacAddress::from_parts(0x8000_5634, 0x1200_5452);
    assert_eq!(mac.octets(), [0x52, 0x54, 0x00, 0x12, 0x34, 0x56]);
    assert_eq!(MacAddress::new().octets(), [0; 6]);
}

#[test]
fn finds_the_first_82540em() {
    let a = FunctionAddress::new(0, 1, 0);
    let b = FunctionAddress::new(0, 3, 0);
    let c = FunctionAddress::new(0, 4, 0);
    let functions = vec![(a, Some(0x8086), 0x1237), (b, Some(0x8086), 0x100E), (c, Some(0x8086), 0x100E)];
    assert_eq!(find(&functions), Some(b));
    assert_eq!(find(&vec![(a, None, 0x100E)]), None);
    assert_eq!(find(&vec![]), None);
}

#[test]
fn needs_an_io_bar_and_a_memory_bar_0() {
    let config = space_with(&[(4, 0xFEB8_0000), (5, 0xC001)]);
    assert_eq!(
        find_bars(&config),
        Ok((
            IoBar { base: 0xC000 },
            MemoryBar { address: 0xFEB8_0000, width: MemoryBarWidth::Bits32, prefetchable: false }
        ))
    );
    assert_eq!(find_bars(&space_with(&[(4, 0xFEB8_0000)])), Err(Error::IoBarUnavailable));
    assert_eq!(find_bars(&space_with(&[(4, 0xC001), (5, 0xD001)])), Err(Error::RegistersBarUnavailable));
}

#[test]
fn command_register_must_keep_all_three_enables() {
    assert_eq!(enabled_command(CommandRegister::from_raw(0x0400)).raw(), 0x0407);
    assert_eq!(check_command(CommandRegister::from_raw(0x7)), Ok(()));
    assert_eq!(check_command(CommandRegister::from_raw(0x6)), Err(Error::IoSpaceEnableFailed));
    assert_eq!(check_command(CommandRegister::from_raw(0x5)), Err(Error::MemorySpaceEnableFailed));
    assert_eq!(check_command(CommandRegister::from_raw(0x3)), Err(Error::BusMasterEnableFailed));
}

#[test]
fn reset_sequence_registers() {
    let registers = MmioRegion::new(0xffff_8000_0000_0000, 0xFEB8_0000, REGISTER_SPACE_SIZE);
    let base = 0xffff_8000_FEB8_0000u64;
    assert_eq!(registers.base(), base);
    assert_eq!(
        reset_quiesce_ops(&registers),
        vec![
            MmioOp::WriteU32 { address: base + 0xd8, value: 0xffff_ffff },
            MmioOp::WriteU32 { address: base + 0x100, value: 0 },
            MmioOp::WriteU32 { address: base + 0x400, value: 8 },
            MmioOp::ReadU32 { address: base + 0x8 },
        ]
    );
    assert_eq!(
        reset_request_ops(IoBar { base: 0xC000 }, 0x0000_0241),
        vec![PortOp::WriteU32 { port: 0xC000, value: 0 }, PortOp::WriteU32 { port: 0xC004, value: 0x0400_0241 }]
    );
    assert_eq!(check_reset(0x0400_0000), Err(Error::ResetFailed));
    assert_eq!(check_reset(0x0000_0241), Ok(()));
    assert_eq!(
        reset_finish_ops(&registers),
        vec![MmioOp::WriteU32 { address: base + 0xd8, value: 0xffff_ffff }, MmioOp::ReadU32 { address: base + 0xc0 }]
    );
    assert_eq!(
        write_register_io(IoBar { base: 0x10 }, 0x5400, 7),
        vec![PortOp::WriteU32 { port: 0x10, value: 0x5400 }, PortOp::WriteU32 { port: 0x14, value: 7 }]
    );
    assert_eq!(StatusRegister::from_raw(0x80080783).raw(), 0x80080783);
}

#[test]
fn receive_ring_setup() {
    let registers = MmioRegion::new(0, 0x1000_0000, REGISTER_SPACE_SIZE);
    assert_eq!(
        configure_rx_ring_ops(&registers, 0x1_2345_6000),
        vec![
            MmioOp::WriteU32 { address: 0x1000_2800, value: 0x2345_6000 },
            MmioOp::WriteU32 { address: 0x1000_2804, value: 1 },
            MmioOp::WriteU32 { address: 0x1000_2808, value: 1024 },
            MmioOp::WriteU32 { address: 0x1000_2810, value: 0 },
            MmioOp::WriteU32 { address: 0x1000_2818, value: 0 },
        ]
    );
    let pages: Vec<u64> = (0..32).map(|i| 0x10_0000 + i * 0x1000).collect();
    let buffers = rx_buffer_addresses(&pages);
    assert_eq!(buffers.len(), 64);
    assert_eq!(buffers[0], 0x10_0000);
    assert_eq!(buffers[1], 0x10_0800);
    assert_eq!(buffers[2], 0x10_1000);
    assert_eq!(buffers[63], 0x11_f800);
}

#[test]
fn mmio_accesses_carry_their_address() {
    let region = MmioRegion::new(0x1000, 0x2000, 0x100);
    assert_eq!(region.len(), 0x100);
    assert_eq!(region.address(0x10, 4, 4), 0x3010);
    assert_eq!(region.read_u8(0xff), MmioOp::ReadU8 { address: 0x30ff });
    assert_eq!(region.write_u16(2, 0xBEEF), MmioOp::WriteU16 { address: 0x3002, value: 0xBEEF });
    assert_eq!(region.read_u64(0xf8), MmioOp::ReadU64 { address: 0x30f8 });
    assert_eq!(region.write_u64(0, 1), MmioOp::WriteU64 { address: 0x3000, value: 1 });
}

fn good_features() -> ProcessorFeatures {
    ProcessorFeatures {
        maximum_basic_leaf: 0x16,
        features_ecx: 0x1000_0000 | 0x0400_0000 | 0x10_0000 | 0x8_0000 | 0x200 | 0x1,
        extended_features_ebx: 0x20,
        supported_state_mask: 0x2ff,
    }
}

#[test]
fn processor_feature_checks() {
    assert_eq!(check_features(good_features()), Ok(7));
    let mut f = good_features();
    f.maximum_basic_leaf = 0xc;
    assert_eq!(check_features(f), Err(MissingFeature::ExtendedStateEnumeration));
    let mut f = good_features();
    f.features_ecx &= !0x0400_0000;
    assert_eq!(check_features(f), Err(MissingFeature::Xsave));
    let mut f = good_features();
    f.features_ecx &= !0x200;
    f.extended_features_ebx = 0;
    assert_eq!(check_features(f), Err(MissingFeature::Ssse3));
    let mut f = good_features();
    f.extended_features_ebx = 0;
    assert_eq!(check_features(f), Err(MissingFeature::Avx2));
    let mut f = good_features();
    f.supported_state_mask = 0x3;
    assert_eq!(check_features(f), Err(MissingFeature::ExtendedStateComponents));
    assert_eq!(configuration(7, 0), Err(MissingFeature::SaveAreaSize));
    assert_eq!(configuration(7, 832), Ok(ExtendedStateConfiguration { mask: 7, size: 832 }));
}

#[test]
fn fresh_extended_state_has_only_mxcsr_set() {
    let state = ExtendedProcessorState::new(ExtendedStateConfiguration { mask: 7, size: 832 });
    let area = state.area();
    assert_eq!(area.len(), XSAVE_AREA_SIZE);
    assert_eq!(&area[24..28], &0x1f80u32.to_le_bytes());
    assert!(area.iter().enumerate().all(|(i, &b)| (24..26).contains(&i) || b == 0));
}

#[test]
fn qemu_exit_codes() {
    assert_eq!(exit_qemu(QemuExitCode::Success), PortOp::WriteU32 { port: 0xf4, value: 0x10 });
    assert_eq!(exit_qemu(QemuExitCode::Failure), PortOp::WriteU32 { port: 0xf4, value: 0x11 });
}
