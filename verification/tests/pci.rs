use ghostos::io::PortOp;
use ghostos::pci::{
    get_bar, get_class, get_header_type, get_vendor_id, merge_u16, merge_u8, read_u16, read_u8, write_u16_merged, write_u8, write_u8_merged, Bar, BarIndex,
    ConfigSpace, FunctionAddress, HeaderKind, HeaderType, IoBar, MemoryBarWidth, PciIterator,
};

fn space_with(entries: &[(usize, u32)]) -> ConfigSpace {
    let mut dwords = vec![0u32; 64];
    for &(i, v) in entries {
        dwords[i] = v;
    }
    ConfigSpace::new(dwords)
}

#[test]
fn header_type_decodes_kind_and_multi_function() {
    let h = HeaderType::from_raw(0x81);
    assert!(h.is_multi_function());
    assert_eq!(h.kind(), HeaderKind::PciToPciBridge);
    assert_eq!(HeaderType::from_raw(0x05).kind(), HeaderKind::Unknown(5));
}

#[test]
fn config_address_encodes_fields() {
    let f = FunctionAddress::new(1, 2, 3);
    assert_eq!(f.config_address(0x0E), 0x8000_0000 | (1 << 16) | (2 << 11) | (3 << 8) | 0x0C);
}

#[test]
fn reads_bytes_and_words_from_dwords() {
    let cfg = space_with(&[(0, 0x100E_8086), (2, 0x0101_8A00), (3, 0x0080_0000)]);
    assert_eq!(read_u16(&cfg, 0), 0x8086);
    assert_eq!(read_u16(&cfg, 2), 0x100E);
    assert_eq!(read_u8(&cfg, 0x0B), 0x01);
    assert_eq!(get_vendor_id(&cfg), Some(0x8086));
    assert!(get_header_type(&cfg).is_multi_function());
    let class = get_class(&cfg);
    assert_eq!((class.class(), class.subclass(), class.programming_interface()), (1, 1, 0x8A));
}

#[test]
fn write_u8_addresses_then_writes_byte_lane() {
    let f = FunctionAddress::new(0, 3, 0);
    let ops = write_u8(f, 0x3D, 7);
    assert_eq!(
        ops,
        vec![
            PortOp::WriteU32 { port: 0xCF8, value: 0x8000_0000 | (3 << 11) | 0x3C },
            PortOp::WriteU8 { port: 0xCFD, value: 7 },
        ]
    );
}

#[test]
fn bars_decode_io_and_64_bit_memory() {
    let cfg = space_with(&[(4, 0xFEB0_000C), (5, 0x0000_0001), (6, 0xC001)]);
    match get_bar(&cfg, BarIndex::Bar0) {
        Some(Bar::Memory(bar)) => {
            assert_eq!(bar.address(), 0x1_FEB0_0000);
            assert_eq!(bar.width(), MemoryBarWidth::Bits64);
            assert!(bar.is_prefetchable());
        }
        other => panic!("unexpected {:?}", other),
    }
    assert_eq!(get_bar(&cfg, BarIndex::Bar2), Some(Bar::Io(IoBar { base: 0xC000 })));
    assert_eq!(ghostos::pci::find_io_bar(&cfg), Some(IoBar { base: 0xC000 }));
}

#[test]
fn iterator_skips_absent_devices_and_single_function_devices() {
    let mut it = PciIterator::new();
    let f = it.current().unwrap();
    assert_eq!((f.bus(), f.device(), f.function()), (0, 0, 0));
    assert_eq!(it.step(true, HeaderType::from_raw(0)), Some(f));
    let g = it.current().unwrap();
    assert_eq!((g.bus(), g.device(), g.function()), (0, 1, 0));
    assert_eq!(it.step(true, HeaderType::from_raw(0x80)), Some(g));
    let h = it.current().unwrap();
    assert_eq!((h.bus(), h.device(), h.function()), (0, 1, 1));
    assert_eq!(it.step(false, HeaderType::from_raw(0)), None);
    let k = it.current().unwrap();
    assert_eq!((k.bus(), k.device(), k.function()), (0, 1, 2));
}

#[test]
fn whole_walk_yields_each_present_function_once_in_order() {
    // present: (bus, device, function) -> header type of function 0
    let present = |b: u8, d: u8, f: u8| -> Option<u8> {
        match (b, d, f) {
            (0, 0, 0) => Some(0x00),
            (0, 0, 1) => Some(0x00), // ignored: device 0 is single-function
            (0, 3, 0) => Some(0x80),
            (0, 3, 2) => Some(0x00),
            (0, 3, 7) => Some(0x00),
            (0, 5, 4) => Some(0x00), // ignored: function 0 is absent
            (2, 31, 0) => Some(0x00),
            (255, 31, 0) => Some(0x80),
            (255, 31, 7) => Some(0x00),
            _ => None,
        }
    };
    let mut it = PciIterator::new();
    let mut found = Vec::new();
    while let Some(f) = it.current() {
        let answer = present(f.bus(), f.device(), f.function());
        if let Some(g) = it.step(answer.is_some(), HeaderType::from_raw(answer.unwrap_or(0))) {
            found.push((g.bus(), g.device(), g.function()));
        }
    }
    assert_eq!(
        found,
        vec![(0, 0, 0), (0, 3, 0), (0, 3, 2), (0, 3, 7), (2, 31, 0), (255, 31, 0), (255, 31, 7)]
    );
    assert_eq!(it.current(), None);
}

#[test]
fn merged_writes_replace_only_their_byte_lanes() {
    assert_eq!(merge_u8(0x1122_3344, 0x05, 0xAB), 0x1122_AB44);
    assert_eq!(merge_u8(0x1122_3344, 0x07, 0xAB), 0xAB22_3344);
    assert_eq!(merge_u16(0x1122_3344, 0x06, 0xBEEF), 0xBEEF_3344);
    assert_eq!(merge_u16(0x1122_3344, 0x04, 0xBEEF), 0x1122_BEEF);
}

#[test]
fn config_stores_merge_into_their_dword() {
    let mut space = space_with(&[(1, 0x1122_3344), (2, 0x5566_7788)]);
    space.store_u16(0x06, 0xBEEF);
    assert_eq!(read_u16(&space, 0x06), 0xBEEF);
    assert_eq!(read_u16(&space, 0x04), 0x3344);
    assert_eq!(read_u8(&space, 0x08), 0x88);
    space.store_u8(0x05, 0xAB);
    assert_eq!(read_u8(&space, 0x05), 0xAB);
    assert_eq!(read_u16(&space, 0x06), 0xBEEF);
    let f = FunctionAddress::new(0, 3, 0);
    assert_eq!(
        write_u16_merged(f, 0x06, 0xBEEF, 0x1122_3344),
        vec![PortOp::WriteU32 { port: 0xCF8, value: 0x8000_1804 }, PortOp::WriteU32 { port: 0xCFC, value: 0xBEEF_3344 }]
    );
    assert_eq!(
        write_u8_merged(f, 0x05, 0xAB, 0x1122_3344),
        vec![PortOp::WriteU32 { port: 0xCF8, value: 0x8000_1804 }, PortOp::WriteU32 { port: 0xCFC, value: 0x1122_AB44 }]
    );
}
