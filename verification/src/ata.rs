//! ATA (IDE) disk controller: register encodings, logical block addresses,
//! identify data, the command sequences written to a channel, the decisions
//! taken on the status values read back, and the planning of transfers.
use crate::io::{PortAddress, PortOp, ReadWrite, write_u16, write_u8};
use crate::pci::{Class, FunctionAddress};
use vstd::prelude::*;

verus! {

/// PCI class of mass storage controllers.
pub const MASS_STORAGE_CLASS: u8 = 0x01;

/// PCI subclass of IDE controllers.
pub const IDE_SUBCLASS: u8 = 0x01;

/// How many status reads a wait makes before it gives up.
pub const STATUS_POLL_LIMIT: usize = 1_000_000;

/// How a channel of an IDE controller is addressed.
#[derive(Debug, Clone, Copy, PartialEq, Eq, Structural)]
pub enum ChannelMode {
    Compatibility,
    Native,
}

/// The programming interface byte of an IDE controller.
#[derive(Debug, Clone, Copy, PartialEq, Eq, Structural)]
pub struct IdeProgrammingInterface(u8);

impl IdeProgrammingInterface {
    pub closed spec fn spec_raw(self) -> u8 {
        self.0
    }

    pub fn from_raw(raw: u8) -> (r: Self)
        ensures
            r.spec_raw() == raw,
    {
        Self(raw)
    }

    #[verifier::when_used_as_spec(spec_raw)]
    pub fn raw(self) -> (r: u8)
        ensures
            r == self.spec_raw(),
    {
        self.0
    }

    /// Bit 0: the primary channel runs in native mode.
    pub fn primary_mode(self) -> (r: ChannelMode)
        ensures
            r == (if self.spec_raw() & 1 != 0 {
                ChannelMode::Native
            } else {
                ChannelMode::Compatibility
            }),
    {
        if self.0 & 1 != 0 {
            ChannelMode::Native
        } else {
            ChannelMode::Compatibility
        }
    }

    /// Bit 1.
    pub fn primary_is_switchable(self) -> (r: bool)
        ensures
            r == (self.spec_raw() & 2 != 0),
    {
        self.0 & 2 != 0
    }

    /// Bit 2: the secondary channel runs in native mode.
    pub fn secondary_mode(self) -> (r: ChannelMode)
        ensures
            r == (if self.spec_raw() & 4 != 0 {
                ChannelMode::Native
            } else {
                ChannelMode::Compatibility
            }),
    {
        if self.0 & 4 != 0 {
            ChannelMode::Native
        } else {
            ChannelMode::Compatibility
        }
    }

    /// Bit 3.
    pub fn secondary_is_switchable(self) -> (r: bool)
        ensures
            r == (self.spec_raw() & 8 != 0),
    {
        self.0 & 8 != 0
    }

    /// Bit 7.
    pub fn supports_bus_master_dma(self) -> (r: bool)
        ensures
            r == (self.spec_raw() & 0x80 != 0),
    {
        self.0 & 0x80 != 0
    }
}

/// A drive on a channel.
#[derive(Debug, Clone, Copy, PartialEq, Eq, Structural)]
pub enum DeviceId {
    Master,
    Slave,
}

/// The drive select bit of a drive in the device register.
pub open spec fn device_bits(device: DeviceId) -> u8 {
    match device {
        DeviceId::Master => 0u8,
        DeviceId::Slave => 0x10u8,
    }
}

impl DeviceId {
    /// The drive select bit (bit 4 for the slave).
    pub fn value(self) -> (r: u8)
        ensures
            r == device_bits(self),
    {
        match self {
            DeviceId::Master => 0,
            DeviceId::Slave => 0x10,
        }
    }
}

/// The signature a device leaves in the LBA mid and high registers.
#[derive(Debug, Clone, Copy, PartialEq, Eq, Structural)]
pub struct DeviceSignature(u16);

impl DeviceSignature {
    pub closed spec fn spec_raw(self) -> u16 {
        self.0
    }

    /// LBA mid is the low byte, LBA high the high byte.
    pub fn from_registers(lba_mid: u8, lba_high: u8) -> (r: Self)
        ensures
            r.spec_raw() == lba_mid as int + 256 * lba_high as int,
    {
        let low = lba_mid as u16;
        let high = lba_high as u16;
        assert(low | (high << 8u16) == low + 256 * high) by (bit_vector)
            requires
                low < 256,
                high < 256,
        ;
        Self(low | (high << 8u16))
    }

    #[verifier::when_used_as_spec(spec_raw)]
    pub fn raw(self) -> (r: u16)
        ensures
            r == self.spec_raw(),
    {
        self.0
    }

    /// ATA devices leave a zero signature; packet devices do not.
    pub fn is_ata(self) -> (r: bool)
        ensures
            r == (self.spec_raw() == 0),
    {
        self.0 == 0
    }
}

/// Commands written to the command register.
#[derive(Debug, Clone, Copy, PartialEq, Eq, Structural)]
pub enum Command {
    ReadSectors,
    ReadSectorsExt,
    WriteSectors,
    WriteSectorsExt,
    FlushCache,
    FlushCacheExt,
    IdentifyDevice,
}

/// The opcode of a command.
pub open spec fn command_code(command: Command) -> u8 {
    match command {
        Command::ReadSectors => 0x20u8,
        Command::ReadSectorsExt => 0x24u8,
        Command::WriteSectors => 0x30u8,
        Command::WriteSectorsExt => 0x34u8,
        Command::FlushCache => 0xE7u8,
        Command::FlushCacheExt => 0xEAu8,
        Command::IdentifyDevice => 0xECu8,
    }
}

impl Command {
    /// The opcode.
    pub fn value(self) -> (r: u8)
        ensures
            r == command_code(self),
    {
        match self {
            Command::ReadSectors => 0x20,
            Command::ReadSectorsExt => 0x24,
            Command::WriteSectors => 0x30,
            Command::WriteSectorsExt => 0x34,
            Command::FlushCache => 0xE7,
            Command::FlushCacheExt => 0xEA,
            Command::IdentifyDevice => 0xEC,
        }
    }
}

/// The status register.
#[derive(Debug, Clone, Copy, PartialEq, Eq, Structural)]
pub struct Status(u8);

impl Status {
    pub closed spec fn spec_raw(self) -> u8 {
        self.0
    }

    pub open spec fn spec_is_zero(self) -> bool {
        self.spec_raw() == 0
    }

    pub open spec fn spec_is_floating_bus(self) -> bool {
        self.spec_raw() == 0xFF
    }

    pub open spec fn spec_has_error(self) -> bool {
        self.spec_raw() & 1 != 0
    }

    pub open spec fn spec_data_requested(self) -> bool {
        self.spec_raw() & 8 != 0
    }

    pub open spec fn spec_has_device_fault(self) -> bool {
        self.spec_raw() & 0x20 != 0
    }

    pub open spec fn spec_device_ready(self) -> bool {
        self.spec_raw() & 0x40 != 0
    }

    pub open spec fn spec_device_busy(self) -> bool {
        self.spec_raw() & 0x80 != 0
    }

    pub fn from_raw(raw: u8) -> (r: Self)
        ensures
            r.spec_raw() == raw,
    {
        Self(raw)
    }

    #[verifier::when_used_as_spec(spec_raw)]
    pub fn raw(self) -> (r: u8)
        ensures
            r == self.spec_raw(),
    {
        self.0
    }

    #[verifier::when_used_as_spec(spec_is_zero)]
    pub fn is_zero(self) -> (r: bool)
        ensures
            r == self.spec_is_zero(),
    {
        self.0 == 0
    }

    /// All bits set: nothing drives the bus.
    #[verifier::when_used_as_spec(spec_is_floating_bus)]
    pub fn is_floating_bus(self) -> (r: bool)
        ensures
            r == self.spec_is_floating_bus(),
    {
        self.0 == 0xFF
    }

    /// Bit 0.
    #[verifier::when_used_as_spec(spec_has_error)]
    pub fn has_error(self) -> (r: bool)
        ensures
            r == self.spec_has_error(),
    {
        self.0 & 1 != 0
    }

    /// Bit 3.
    #[verifier::when_used_as_spec(spec_data_requested)]
    pub fn data_requested(self) -> (r: bool)
        ensures
            r == self.spec_data_requested(),
    {
        self.0 & 8 != 0
    }

    /// Bit 5.
    #[verifier::when_used_as_spec(spec_has_device_fault)]
    pub fn has_device_fault(self) -> (r: bool)
        ensures
            r == self.spec_has_device_fault(),
    {
        self.0 & 0x20 != 0
    }

    /// Bit 6.
    #[verifier::when_used_as_spec(spec_device_ready)]
    pub fn device_ready(self) -> (r: bool)
        ensures
            r == self.spec_device_ready(),
    {
        self.0 & 0x40 != 0
    }

    /// Bit 7.
    #[verifier::when_used_as_spec(spec_device_busy)]
    pub fn device_busy(self) -> (r: bool)
        ensures
            r == self.spec_device_busy(),
    {
        self.0 & 0x80 != 0
    }
}

/// The error register.
#[derive(Debug, Clone, Copy, PartialEq, Eq, Structural)]
pub struct ErrorRegister(u8);

impl ErrorRegister {
    pub closed spec fn spec_raw(self) -> u8 {
        self.0
    }

    pub fn from_raw(raw: u8) -> (r: Self)
        ensures
            r.spec_raw() == raw,
    {
        Self(raw)
    }

    #[verifier::when_used_as_spec(spec_raw)]
    pub fn raw(self) -> (r: u8)
        ensures
            r == self.spec_raw(),
    {
        self.0
    }

    /// Bit 0.
    pub fn address_mark_not_found(self) -> (r: bool)
        ensures
            r == (self.spec_raw() & 1 != 0),
    {
        self.0 & 1 != 0
    }

    /// Bit 1.
    pub fn track_zero_not_found(self) -> (r: bool)
        ensures
            r == (self.spec_raw() & 2 != 0),
    {
        self.0 & 2 != 0
    }

    /// Bit 2.
    pub fn command_aborted(self) -> (r: bool)
        ensures
            r == (self.spec_raw() & 4 != 0),
    {
        self.0 & 4 != 0
    }

    /// Bit 3.
    pub fn media_change_requested(self) -> (r: bool)
        ensures
            r == (self.spec_raw() & 8 != 0),
    {
        self.0 & 8 != 0
    }

    /// Bit 4.
    pub fn id_not_found(self) -> (r: bool)
        ensures
            r == (self.spec_raw() & 0x10 != 0),
    {
        self.0 & 0x10 != 0
    }

    /// Bit 5.
    pub fn media_changed(self) -> (r: bool)
        ensures
            r == (self.spec_raw() & 0x20 != 0),
    {
        self.0 & 0x20 != 0
    }

    /// Bit 6.
    pub fn uncorrectable_data(self) -> (r: bool)
        ensures
            r == (self.spec_raw() & 0x40 != 0),
    {
        self.0 & 0x40 != 0
    }

    /// Bit 7.
    pub fn interface_crc_error(self) -> (r: bool)
        ensures
            r == (self.spec_raw() & 0x80 != 0),
    {
        self.0 & 0x80 != 0
    }
}

/// The largest 28-bit logical block address.
pub const LBA28_MAX: u32 = 0x0FFF_FFFF;

/// The largest 48-bit logical block address.
pub const LBA48_MAX: u64 = 0xFFFF_FFFF_FFFF;

/// A 28-bit logical block address.
#[derive(Debug, Clone, Copy, PartialEq, Eq, Structural)]
pub struct Lba28(u32);

impl Lba28 {
    pub const MAX: u32 = 0x0FFF_FFFF;

    #[verifier::type_invariant]
    closed spec fn inv(self) -> bool {
        self.0 <= LBA28_MAX
    }

    pub closed spec fn spec_value(self) -> u32 {
        self.0
    }

    /// The address with this value.
    pub closed spec fn spec_from(value: u32) -> Lba28 {
        Lba28(value)
    }

    pub fn new(value: u32) -> (r: Self)
        requires
            value <= LBA28_MAX,
        ensures
            r.spec_value() == value,
    {
        Self(value)
    }

    #[verifier::when_used_as_spec(spec_value)]
    pub fn value(self) -> (r: u32)
        ensures
            r == self.spec_value(),
            r <= LBA28_MAX,
    {
        proof {
            use_type_invariant(self);
        }
        self.0
    }

    /// Whether `sector_count` sectors from this address all have 28-bit
    /// addresses.
    pub fn is_range_addressable(self, sector_count: u16) -> (r: bool)
        ensures
            r == (sector_count != 0 && self.spec_value() + sector_count - 1 <= LBA28_MAX),
    {
        proof {
            use_type_invariant(self);
        }
        if sector_count == 0 {
            return false;
        }
        let last_sector_offset = sector_count as u32 - 1;
        last_sector_offset <= LBA28_MAX - self.0
    }

    /// Whether the range is addressable and ends within a device of
    /// `total_sector_count` sectors.
    pub fn is_range_addressable_on_device(self, sector_count: u16, total_sector_count: u64) -> (r:
        bool)
        ensures
            r == (sector_count != 0 && self.spec_value() + sector_count - 1 <= LBA28_MAX
                && self.spec_value() + sector_count <= total_sector_count),
    {
        self.is_range_addressable(sector_count) && (self.0 as u64 + sector_count as u64
            <= total_sector_count)
    }
}

/// A 48-bit logical block address.
#[derive(Debug, Clone, Copy, PartialEq, Eq, Structural)]
pub struct Lba48(u64);

impl Lba48 {
    pub const MAX: u64 = 0xFFFF_FFFF_FFFF;

    #[verifier::type_invariant]
    closed spec fn inv(self) -> bool {
        self.0 <= LBA48_MAX
    }

    pub closed spec fn spec_value(self) -> u64 {
        self.0
    }

    pub fn new(value: u64) -> (r: Self)
        requires
            value <= LBA48_MAX,
        ensures
            r.spec_value() == value,
    {
        Self(value)
    }

    #[verifier::when_used_as_spec(spec_value)]
    pub fn value(self) -> (r: u64)
        ensures
            r == self.spec_value(),
            r <= LBA48_MAX,
    {
        proof {
            use_type_invariant(self);
        }
        self.0
    }

    /// The same address as a 28-bit address, when it is one.
    pub fn as_lba28(self) -> (r: Option<Lba28>)
        ensures
            r matches Some(l) ==> l.spec_value() == self.spec_value(),
            r is Some <==> self.spec_value() <= LBA28_MAX,
    {
        if self.0 <= LBA28_MAX as u64 {
            Some(Lba28::new(self.0 as u32))
        } else {
            None
        }
    }

    /// Whether `sector_count` sectors from this address all have 48-bit
    /// addresses and end within a device of `total_sector_count` sectors.
    pub fn is_range_addressable_on_device(self, sector_count: u32, total_sector_count: u64) -> (r:
        bool)
        ensures
            r == (sector_count != 0 && self.spec_value() + sector_count - 1 <= LBA48_MAX
                && self.spec_value() + sector_count <= total_sector_count),
    {
        proof {
            use_type_invariant(self);
        }
        if sector_count == 0 {
            return false;
        }
        let last_sector_offset = sector_count as u64 - 1;
        if last_sector_offset > LBA48_MAX - self.0 {
            return false;
        }
        self.0 + sector_count as u64 <= total_sector_count
    }
}

/// Bits 7 and 5 of the device register, which old drives expect set.
pub const DEVICE_OBSOLETE_BITS: u8 = 0xA0;

/// Bit 6 of the device register: addresses are logical block addresses.
pub const LBA_MODE: u8 = 0x40;

/// The eight command block registers of a channel, at consecutive ports from
/// `base`: data, error/features, sector count, LBA low, LBA mid, LBA high,
/// device, status/command.
pub struct CommandBlock {
    base: u16,
}

impl CommandBlock {
    #[verifier::type_invariant]
    closed spec fn inv(self) -> bool {
        self.base <= 0xFFF8
    }

    /// The first port of the block.
    pub closed spec fn spec_base(self) -> u16 {
        self.base
    }

    pub open spec fn port(self, offset: int) -> u16 {
        (self.spec_base() + offset) as u16
    }

    pub fn new(base: u16) -> (r: Self)
        requires
            base <= 0xFFF8,
        ensures
            r.spec_base() == base,
    {
        Self { base }
    }

    fn port_at(&self, offset: u16) -> (r: u16)
        requires
            offset <= 7,
        ensures
            r == self.port(offset as int),
    {
        proof {
            use_type_invariant(self);
        }
        self.base + offset
    }

    /// The 16-bit data port.
    pub fn data_port(&self) -> (r: PortAddress<u16, ReadWrite>)
        ensures
            r.spec_number() == self.port(0),
    {
        PortAddress::new(self.port_at(0))
    }

    /// The error register (read) and features register (write).
    pub fn error_features_port(&self) -> (r: PortAddress<u8, ReadWrite>)
        ensures
            r.spec_number() == self.port(1),
    {
        PortAddress::new(self.port_at(1))
    }

    /// The LBA mid register.
    pub fn lba_mid_port(&self) -> (r: PortAddress<u8, ReadWrite>)
        ensures
            r.spec_number() == self.port(4),
    {
        PortAddress::new(self.port_at(4))
    }

    /// The LBA high register.
    pub fn lba_high_port(&self) -> (r: PortAddress<u8, ReadWrite>)
        ensures
            r.spec_number() == self.port(5),
    {
        PortAddress::new(self.port_at(5))
    }

    /// The status register (read) and command register (write).
    pub fn status_command_port(&self) -> (r: PortAddress<u8, ReadWrite>)
        ensures
            r.spec_number() == self.port(7),
    {
        PortAddress::new(self.port_at(7))
    }

    /// Writes the opcode of `command` to the command register.
    pub fn write_command(&self, command: Command) -> (op: PortOp)
        ensures
            op == (PortOp::WriteU8 { port: self.port(7), value: command_code(command) }),
    {
        write_u8(PortAddress::<u8, ReadWrite>::new(self.port_at(7)), command.value())
    }

    /// Writes the features register.
    pub fn write_features(&self, features: u8) -> (op: PortOp)
        ensures
            op == (PortOp::WriteU8 { port: self.port(1), value: features }),
    {
        write_u8(self.error_features_port(), features)
    }

    /// Writes a 28-bit address: bits 0-7, 8-15 and 16-23 to LBA low, mid and
    /// high, and bits 24-27 with the drive select and LBA mode bits to the
    /// device register.
    pub fn write_lba28(&self, device: DeviceId, lba: Lba28) -> (ops: Vec<PortOp>)
        ensures
            ops@ == lba28_writes(self, device, lba.spec_value()),
    {
        let value = lba.value();
        let mut ops = Vec::new();
        ops.push(PortOp::WriteU8 { port: self.port_at(3), value: value as u8 });
        ops.push(PortOp::WriteU8 { port: self.port_at(4), value: (value >> 8u32) as u8 });
        ops.push(PortOp::WriteU8 { port: self.port_at(5), value: (value >> 16u32) as u8 });
        ops.push(
            PortOp::WriteU8 {
                port: self.port_at(6),
                value: DEVICE_OBSOLETE_BITS | LBA_MODE | device.value() | ((value >> 24u32) as u8
                    & 0x0F),
            },
        );
        ops
    }

    /// Writes a 48-bit address and a sector count of 1 to 65536 (65536 is
    /// written as 0): the drive select first, then the high bytes of count
    /// and address, then the low bytes.
    pub fn write_lba48(&self, device: DeviceId, lba: Lba48, count: u32) -> (ops: Vec<PortOp>)
        requires
            1 <= count <= 65536,
        ensures
            ops@ == lba48_writes(self, device, lba.spec_value(), count),
    {
        let value = lba.value();
        let count: u16 = if count == 65536 {
            0
        } else {
            count as u16
        };
        let mut ops = Vec::new();
        ops.push(
            PortOp::WriteU8 {
                port: self.port_at(6),
                value: DEVICE_OBSOLETE_BITS | LBA_MODE | device.value(),
            },
        );
        ops.push(PortOp::WriteU8 { port: self.port_at(2), value: (count >> 8u16) as u8 });
        ops.push(PortOp::WriteU8 { port: self.port_at(3), value: (value >> 24u64) as u8 });
        ops.push(PortOp::WriteU8 { port: self.port_at(4), value: (value >> 32u64) as u8 });
        ops.push(PortOp::WriteU8 { port: self.port_at(5), value: (value >> 40u64) as u8 });
        ops.push(PortOp::WriteU8 { port: self.port_at(2), value: count as u8 });
        ops.push(PortOp::WriteU8 { port: self.port_at(3), value: value as u8 });
        ops.push(PortOp::WriteU8 { port: self.port_at(4), value: (value >> 8u64) as u8 });
        ops.push(PortOp::WriteU8 { port: self.port_at(5), value: (value >> 16u64) as u8 });
        ops
    }

    /// Writes a sector count of 1 to 256 (256 is written as 0).
    pub fn write_sector_count(&self, count: u16) -> (op: PortOp)
        requires
            1 <= count <= 256,
        ensures
            op == (PortOp::WriteU8 { port: self.port(2), value: (count % 256) as u8 }),
    {
        let encoded: u8 = if count == 256 {
            0
        } else {
            count as u8
        };
        PortOp::WriteU8 { port: self.port_at(2), value: encoded }
    }

    /// Writes each word of `buffer` to the data port, in order.
    pub fn write_data_from(&self, buffer: &[u16]) -> (ops: Vec<PortOp>)
        ensures
            ops@.len() == buffer@.len(),
            forall|i: int|
                0 <= i < buffer@.len() ==> ops@[i] == (PortOp::WriteU16 {
                    port: self.port(0),
                    value: buffer@[i],
                }),
    {
        let port = self.data_port();
        let mut ops: Vec<PortOp> = Vec::new();
        let mut i: usize = 0;
        while i < buffer.len()
            invariant
                i <= buffer@.len(),
                port.spec_number() == self.port(0),
                ops@.len() == i,
                forall|j: int|
                    0 <= j < i ==> ops@[j] == (PortOp::WriteU16 {
                        port: self.port(0),
                        value: buffer@[j],
                    }),
            decreases buffer@.len() - i,
        {
            ops.push(write_u16(port, buffer[i]));
            i = i + 1;
        }
        ops
    }

    /// Zeroes the sector count and the three LBA registers.
    pub fn clear_address_and_count_registers(&self) -> (ops: Vec<PortOp>)
        ensures
            ops@ == seq![
                PortOp::WriteU8 { port: self.port(2), value: 0 },
                PortOp::WriteU8 { port: self.port(3), value: 0 },
                PortOp::WriteU8 { port: self.port(4), value: 0 },
                PortOp::WriteU8 { port: self.port(5), value: 0 },
            ],
    {
        let mut ops = Vec::new();
        ops.push(PortOp::WriteU8 { port: self.port_at(2), value: 0 });
        ops.push(PortOp::WriteU8 { port: self.port_at(3), value: 0 });
        ops.push(PortOp::WriteU8 { port: self.port_at(4), value: 0 });
        ops.push(PortOp::WriteU8 { port: self.port_at(5), value: 0 });
        ops
    }

    /// Selects a drive in the device register.
    pub fn select_device(&self, device: DeviceId) -> (op: PortOp)
        ensures
            op == (PortOp::WriteU8 {
                port: self.port(6),
                value: DEVICE_OBSOLETE_BITS | device_bits(device),
            }),
    {
        PortOp::WriteU8 { port: self.port_at(6), value: DEVICE_OBSOLETE_BITS | device.value() }
    }
}

/// The register writes that set a 28-bit address.
pub open spec fn lba28_writes(block: &CommandBlock, device: DeviceId, lba: u32) -> Seq<PortOp> {
    seq![
        PortOp::WriteU8 { port: block.port(3), value: lba as u8 },
        PortOp::WriteU8 { port: block.port(4), value: (lba >> 8u32) as u8 },
        PortOp::WriteU8 { port: block.port(5), value: (lba >> 16u32) as u8 },
        PortOp::WriteU8 {
            port: block.port(6),
            value: DEVICE_OBSOLETE_BITS | LBA_MODE | device_bits(device) | ((lba >> 24u32) as u8
                & 0x0F),
        },
    ]
}

/// The register writes that set a 48-bit address and a sector count.
pub open spec fn lba48_writes(block: &CommandBlock, device: DeviceId, lba: u64, count: u32) -> Seq<
    PortOp,
> {
    let c: u16 = if count == 65536 {
        0
    } else {
        count as u16
    };
    seq![
        PortOp::WriteU8 { port: block.port(6), value: DEVICE_OBSOLETE_BITS | LBA_MODE | device_bits(device) },
        PortOp::WriteU8 { port: block.port(2), value: (c >> 8u16) as u8 },
        PortOp::WriteU8 { port: block.port(3), value: (lba >> 24u64) as u8 },
        PortOp::WriteU8 { port: block.port(4), value: (lba >> 32u64) as u8 },
        PortOp::WriteU8 { port: block.port(5), value: (lba >> 40u64) as u8 },
        PortOp::WriteU8 { port: block.port(2), value: c as u8 },
        PortOp::WriteU8 { port: block.port(3), value: lba as u8 },
        PortOp::WriteU8 { port: block.port(4), value: (lba >> 8u64) as u8 },
        PortOp::WriteU8 { port: block.port(5), value: (lba >> 16u64) as u8 },
    ]
}

/// A drive reassembles the 28-bit address from what [`CommandBlock::write_lba28`]
/// writes: LBA low, mid and high, and the low nibble of the device register.
pub proof fn lemma_lba28_encoding_round_trip(lba: u32, device_bits_value: u8)
    requires
        lba <= LBA28_MAX,
        device_bits_value == 0 || device_bits_value == 0x10,
    ensures
        ({
            let low = lba as u8;
            let mid = (lba >> 8u32) as u8;
            let high = (lba >> 16u32) as u8;
            let dev = DEVICE_OBSOLETE_BITS | LBA_MODE | device_bits_value | ((lba >> 24u32) as u8
                & 0x0F);
            &&& (low as u32) | ((mid as u32) << 8u32) | ((high as u32) << 16u32) | (((dev & 0x0F)
                as u32) << 24u32) == lba
            &&& dev & 0x10 == device_bits_value
            &&& dev & LBA_MODE != 0
        }),
{
    assert({
        let low = lba as u8;
        let mid = (lba >> 8u32) as u8;
        let high = (lba >> 16u32) as u8;
        let dev = 0xA0u8 | 0x40u8 | device_bits_value | ((lba >> 24u32) as u8 & 0x0Fu8);
        &&& (low as u32) | ((mid as u32) << 8u32) | ((high as u32) << 16u32) | (((dev & 0x0Fu8)
            as u32) << 24u32) == lba
        &&& dev & 0x10u8 == device_bits_value
        &&& dev & 0x40u8 != 0
    }) by (bit_vector)
        requires
            lba <= 0x0FFF_FFFFu32,
            device_bits_value == 0 || device_bits_value == 0x10,
    ;
}

/// A drive reassembles the 48-bit address from the six LBA bytes that
/// [`CommandBlock::write_lba48`] writes (previous and current contents of
/// LBA low, mid and high).
pub proof fn lemma_lba48_encoding_round_trip(lba: u64)
    requires
        lba <= LBA48_MAX,
    ensures
        (lba as u8 as u64) | (((lba >> 8u64) as u8 as u64) << 8u64) | (((lba >> 16u64) as u8
            as u64) << 16u64) | (((lba >> 24u64) as u8 as u64) << 24u64) | (((lba >> 32u64) as u8
            as u64) << 32u64) | (((lba >> 40u64) as u8 as u64) << 40u64) == lba,
{
    assert((lba as u8 as u64) | (((lba >> 8u64) as u8 as u64) << 8u64) | (((lba >> 16u64) as u8
        as u64) << 16u64) | (((lba >> 24u64) as u8 as u64) << 24u64) | (((lba >> 32u64) as u8
        as u64) << 32u64) | (((lba >> 40u64) as u8 as u64) << 40u64) == lba) by (bit_vector)
        requires
            lba <= 0xFFFF_FFFF_FFFFu64,
    ;
}

/// The device control register.
#[derive(Debug, Clone, Copy, PartialEq, Eq, Structural)]
pub struct DeviceControl(u8);

impl DeviceControl {
    pub closed spec fn spec_raw(self) -> u8 {
        self.0
    }

    pub fn new() -> (r: Self)
        ensures
            r.spec_raw() == 0,
    {
        Self(0)
    }

    /// Sets bit 1 (nIEN).
    pub fn with_interrupts_disabled(self) -> (r: Self)
        ensures
            r.spec_raw() == self.spec_raw() | 2,
    {
        Self(self.0 | 2)
    }

    /// Sets bit 2 (SRST).
    pub fn with_software_reset(self) -> (r: Self)
        ensures
            r.spec_raw() == self.spec_raw() | 4,
    {
        Self(self.0 | 4)
    }

    #[verifier::when_used_as_spec(spec_raw)]
    pub fn raw(self) -> (r: u8)
        ensures
            r == self.spec_raw(),
    {
        self.0
    }
}

impl Default for DeviceControl {
    fn default() -> (r: Self)
        ensures
            r.spec_raw() == 0,
    {
        Self::new()
    }
}

/// The control block of a channel: one port, alternate status (read) and
/// device control (write).
pub struct ControlBlock {
    port: u16,
}

impl ControlBlock {
    pub closed spec fn spec_port(self) -> u16 {
        self.port
    }

    pub fn new(port: u16) -> (r: Self)
        ensures
            r.spec_port() == port,
    {
        Self { port }
    }

    /// The alternate status port, read without clearing pending interrupts.
    pub fn alternate_status_port(&self) -> (r: PortAddress<u8, ReadWrite>)
        ensures
            r.spec_number() == self.spec_port(),
    {
        PortAddress::new(self.port)
    }

    pub fn write_device_control(&self, value: DeviceControl) -> (op: PortOp)
        ensures
            op == (PortOp::WriteU8 { port: self.spec_port(), value: value.spec_raw() }),
    {
        PortOp::WriteU8 { port: self.port, value: value.raw() }
    }
}

/// One of the two channels of an IDE controller.
#[derive(Debug, Clone, Copy, PartialEq, Eq, Structural)]
pub enum ChannelId {
    Primary,
    Secondary,
}

/// The 256 words that IDENTIFY DEVICE returns.
pub struct IdentifyData(pub [u16; 256]);

/// Whether identify data announces LBA addressing (word 49, bit 9).
pub open spec fn identify_supports_lba(w: Seq<u16>) -> bool {
    w[49] & 0x0200 != 0
}

/// Whether identify data announces 48-bit addressing (word 83: bit 14 set,
/// bit 15 clear, bit 10 set).
pub open spec fn identify_supports_lba48(w: Seq<u16>) -> bool {
    w[83] & 0x4000 != 0 && w[83] & 0x8000 == 0 && w[83] & 0x0400 != 0
}

/// Whether word 106 describes the sector size and announces long logical
/// sectors.
pub open spec fn identify_long_sectors(w: Seq<u16>) -> bool {
    w[106] & 0x4000 != 0 && w[106] & 0x8000 == 0 && w[106] & 0x1000 != 0
}

/// The length of a long logical sector in words (words 117 and 118).
pub open spec fn identify_sector_words(w: Seq<u16>) -> int {
    w[117] as int + 65536 * (w[118] as int)
}

/// The logical sector size in bytes.
pub open spec fn identify_sector_size(w: Seq<u16>) -> int {
    if identify_long_sectors(w) {
        2 * identify_sector_words(w)
    } else {
        512
    }
}

/// The number of logical sectors, if the device has logical block addressing.
pub open spec fn identify_sector_count(w: Seq<u16>) -> Option<u64> {
    if identify_supports_lba48(w) {
        Some(
            (w[100] as int + 0x1_0000 * (w[101] as int) + 0x1_0000_0000 * (w[102] as int)
                + 0x1_0000_0000_0000 * (w[103] as int)) as u64,
        )
    } else if identify_supports_lba(w) {
        Some((w[60] as int + 0x1_0000 * (w[61] as int)) as u64)
    } else {
        None
    }
}

impl IdentifyData {
    pub open spec fn words(&self) -> Seq<u16> {
        self.0@
    }

    pub fn supports_lba(&self) -> (r: bool)
        ensures
            r == identify_supports_lba(self.words()),
    {
        self.0[49] & 0x0200 != 0
    }

    pub fn supports_lba48(&self) -> (r: bool)
        ensures
            r == identify_supports_lba48(self.words()),
    {
        let capabilities = self.0[83];
        capabilities & 0x4000 != 0 && capabilities & 0x8000 == 0 && capabilities & 0x0400 != 0
    }

    /// 512 bytes, unless word 106 announces long sectors; then twice the
    /// word count in words 117 and 118. A word count that does not fit a
    /// 32-bit byte count is left out.
    pub fn logical_sector_size(&self) -> (r: u32)
        requires
            identify_sector_size(self.words()) <= u32::MAX,
        ensures
            r == identify_sector_size(self.words()),
    {
        let info = self.0[106];
        let info_valid = info & 0x4000 != 0 && info & 0x8000 == 0;
        if !info_valid || info & 0x1000 == 0 {
            return 512;
        }
        let low = self.0[117] as u32;
        let high = self.0[118] as u32;
        assert(low | (high << 16u32) == low + 65536 * high) by (bit_vector)
            requires
                low < 65536,
                high < 65536,
        ;
        let words = low | (high << 16u32);
        words * 2
    }

    pub fn logical_sector_count(&self) -> (r: Option<u64>)
        ensures
            r == identify_sector_count(self.words()),
    {
        if self.supports_lba48() {
            let w0 = self.0[100] as u64;
            let w1 = self.0[101] as u64;
            let w2 = self.0[102] as u64;
            let w3 = self.0[103] as u64;
            assert(w0 | (w1 << 16u64) | (w2 << 32u64) | (w3 << 48u64) == w0 + 0x1_0000 * w1
                + 0x1_0000_0000 * w2 + 0x1_0000_0000_0000 * w3) by (bit_vector)
                requires
                    w0 < 65536,
                    w1 < 65536,
                    w2 < 65536,
                    w3 < 65536,
            ;
            Some(w0 | (w1 << 16u64) | (w2 << 32u64) | (w3 << 48u64))
        } else if self.supports_lba() {
            let w0 = self.0[60] as u64;
            let w1 = self.0[61] as u64;
            assert(w0 | (w1 << 16u64) == w0 + 0x1_0000 * w1) by (bit_vector)
                requires
                    w0 < 65536,
                    w1 < 65536,
            ;
            Some(w0 | (w1 << 16u64))
        } else {
            None
        }
    }
}

/// The diagnostic code left in the error register after a reset.
#[derive(Debug, Clone, Copy, PartialEq, Eq, Structural)]
pub struct DiagnosticCode(u8);

impl DiagnosticCode {
    pub closed spec fn spec_raw(self) -> u8 {
        self.0
    }

    pub fn from_raw(raw: u8) -> (r: Self)
        ensures
            r.spec_raw() == raw,
    {
        Self(raw)
    }

    #[verifier::when_used_as_spec(spec_raw)]
    pub fn raw(self) -> (r: u8)
        ensures
            r == self.spec_raw(),
    {
        self.0
    }

    /// Code 0x01: the master passed (and the slave passed or is absent).
    pub fn is_success(self) -> (r: bool)
        ensures
            r == (self.spec_raw() == 1),
    {
        self.0 == 1
    }
}

/// Why a channel operation failed.
#[derive(Debug, Clone, Copy, PartialEq, Eq, Structural)]
pub enum AtaError {
    CommandFailed { status: Status, error: ErrorRegister },
    DeviceFault(Status),
    DiagnosticFailed(DiagnosticCode),
    FloatingBus,
    NoDevice,
    NotAtaDevice(DeviceSignature),
    PollLimitExceeded(Status),
}

/// What a status poll waits for.
#[derive(Debug, Clone, Copy, PartialEq, Eq, Structural)]
pub enum WaitCondition {
    /// Neither busy nor requesting data, on a driven bus: a drive may be
    /// selected.
    DeviceSelectable,
    /// A present drive, neither busy nor requesting data.
    Idle,
    /// A present drive that is not busy.
    NotBusy,
    /// A present drive, not busy, without fault or error, requesting data.
    DataRequest,
    /// A driven bus that is not busy: a reset is over.
    ResetComplete,
}

/// The decision taken on one status read of a poll.
#[derive(Debug, Clone, Copy, PartialEq, Eq, Structural)]
pub enum PollStep {
    /// The condition holds; the wait is over.
    Ready(Status),
    /// The wait failed.
    Failed(AtaError),
    /// The status reports an error: read the error register and pass it to
    /// [`Channel::validate_command_status`], which fails the wait.
    ReadErrorRegister(Status),
    /// Read the alternate status again and poll once more.
    Again,
}

/// The outcome of checking a status for a present drive.
pub open spec fn presence_spec(status: Status) -> Result<(), AtaError> {
    if status.spec_is_zero() {
        Err(AtaError::NoDevice)
    } else if status.spec_is_floating_bus() {
        Err(AtaError::FloatingBus)
    } else {
        Ok(())
    }
}

/// The outcome of checking the status at the end of a command, given the
/// error register.
pub open spec fn command_status_spec(status: Status, error: ErrorRegister) -> Result<(), AtaError> {
    if status.spec_has_device_fault() {
        Err(AtaError::DeviceFault(status))
    } else if status.spec_has_error() {
        Err(AtaError::CommandFailed { status, error })
    } else {
        Ok(())
    }
}

/// The decision on the status read after `polls` earlier checks.
pub open spec fn poll_spec(condition: WaitCondition, status: Status, polls: int) -> PollStep {
    if polls >= STATUS_POLL_LIMIT {
        PollStep::Failed(AtaError::PollLimitExceeded(status))
    } else {
        match condition {
            WaitCondition::DeviceSelectable => if status.spec_is_floating_bus() {
                PollStep::Failed(AtaError::FloatingBus)
            } else if !status.spec_device_busy() && !status.spec_data_requested() {
                PollStep::Ready(status)
            } else {
                PollStep::Again
            },
            WaitCondition::ResetComplete => if status.spec_is_floating_bus() {
                PollStep::Failed(AtaError::FloatingBus)
            } else if !status.spec_device_busy() {
                PollStep::Ready(status)
            } else {
                PollStep::Again
            },
            _ => match presence_spec(status) {
                Err(e) => PollStep::Failed(e),
                Ok(()) => match condition {
                    WaitCondition::Idle => if !status.spec_device_busy()
                        && !status.spec_data_requested() {
                        PollStep::Ready(status)
                    } else {
                        PollStep::Again
                    },
                    WaitCondition::NotBusy => if !status.spec_device_busy() {
                        PollStep::Ready(status)
                    } else {
                        PollStep::Again
                    },
                    _ => if status.spec_device_busy() {
                        PollStep::Again
                    } else if status.spec_has_device_fault() {
                        PollStep::Failed(AtaError::DeviceFault(status))
                    } else if status.spec_has_error() {
                        PollStep::ReadErrorRegister(status)
                    } else if status.spec_data_requested() {
                        PollStep::Ready(status)
                    } else {
                        PollStep::Again
                    },
                },
            },
        }
    }
}

/// A channel of an IDE controller in compatibility mode.
pub struct Channel {
    id: ChannelId,
    command: CommandBlock,
    control: ControlBlock,
}

/// The command block base port of a channel.
pub open spec fn command_base_of(id: ChannelId) -> u16 {
    match id {
        ChannelId::Primary => 0x1F0u16,
        ChannelId::Secondary => 0x170u16,
    }
}

/// The control port of a channel.
pub open spec fn control_port_of(id: ChannelId) -> u16 {
    match id {
        ChannelId::Primary => 0x3F6u16,
        ChannelId::Secondary => 0x376u16,
    }
}

impl Channel {
    pub closed spec fn spec_id(&self) -> ChannelId {
        self.id
    }

    pub closed spec fn spec_command(&self) -> &CommandBlock {
        &self.command
    }

    pub closed spec fn spec_control(&self) -> &ControlBlock {
        &self.control
    }

    /// The channel at its compatibility ports, and the write that disables
    /// its interrupts.
    pub fn compatibility(id: ChannelId) -> (r: (Self, PortOp))
        ensures
            r.0.spec_id() == id,
            r.0.spec_command().spec_base() == command_base_of(id),
            r.0.spec_control().spec_port() == control_port_of(id),
            r.1 == (PortOp::WriteU8 { port: control_port_of(id), value: 2 }),
    {
        let (command_base, control_port): (u16, u16) = match id {
            ChannelId::Primary => (0x1F0, 0x3F6),
            ChannelId::Secondary => (0x170, 0x376),
        };
        let channel = Self {
            id,
            command: CommandBlock::new(command_base),
            control: ControlBlock::new(control_port),
        };
        let op = channel.control.write_device_control(
            DeviceControl::new().with_interrupts_disabled(),
        );
        assert(0u8 | 2u8 == 2u8) by (bit_vector);
        (channel, op)
    }

    #[verifier::when_used_as_spec(spec_id)]
    pub fn id(&self) -> (r: ChannelId)
        ensures
            r == self.spec_id(),
    {
        self.id
    }

    /// The command block registers.
    pub fn command_block(&self) -> (r: &CommandBlock)
        ensures
            r == self.spec_command(),
    {
        &self.command
    }

    /// The control block register.
    pub fn control_block(&self) -> (r: &ControlBlock)
        ensures
            r == self.spec_control(),
    {
        &self.control
    }

    /// Writes a command; the caller then waits 400 ns (four alternate status
    /// reads) before looking at the status.
    pub fn write_command(&self, command: Command) -> (op: PortOp)
        ensures
            op == (PortOp::WriteU8 { port: self.spec_command().port(7), value: command_code(command) }),
    {
        self.command.write_command(command)
    }

    /// Selects a drive, once a poll for [`WaitCondition::DeviceSelectable`]
    /// is ready; the caller then waits 400 ns.
    pub fn select_device(&self, device: DeviceId) -> (op: PortOp)
        ensures
            op == (PortOp::WriteU8 {
                port: self.spec_command().port(6),
                value: DEVICE_OBSOLETE_BITS | device_bits(device),
            }),
    {
        self.command.select_device(device)
    }

    /// The writes that start IDENTIFY DEVICE on the selected, idle drive:
    /// clear the address and count registers, then write the command.
    pub fn identify(&self) -> (ops: Vec<PortOp>)
        ensures
            ops@ == seq![
                PortOp::WriteU8 { port: self.spec_command().port(2), value: 0 },
                PortOp::WriteU8 { port: self.spec_command().port(3), value: 0 },
                PortOp::WriteU8 { port: self.spec_command().port(4), value: 0 },
                PortOp::WriteU8 { port: self.spec_command().port(5), value: 0 },
                PortOp::WriteU8 { port: self.spec_command().port(7), value: 0xEC },
            ],
    {
        let mut ops = self.command.clear_address_and_count_registers();
        ops.push(self.command.write_command(Command::IdentifyDevice));
        ops
    }

    /// After IDENTIFY DEVICE: a drive that is not ATA answers with a
    /// non-zero signature.
    pub fn check_signature(signature: DeviceSignature) -> (r: Result<(), AtaError>)
        ensures
            r == (if signature.spec_raw() == 0 {
                Ok::<(), AtaError>(())
            } else {
                Err(AtaError::NotAtaDevice(signature))
            }),
    {
        if !signature.is_ata() {
            return Err(AtaError::NotAtaDevice(signature));
        }
        Ok(())
    }

    /// The three device control writes of a software reset: interrupts
    /// disabled, then with the reset bit, then without it. The caller waits
    /// 5 us after the first two and 2 ms after the last, then polls for
    /// [`WaitCondition::ResetComplete`] and reads the diagnostic code.
    pub fn software_reset(&self) -> (ops: Vec<PortOp>)
        ensures
            ops@ == seq![
                PortOp::WriteU8 { port: self.spec_control().spec_port(), value: 2 },
                PortOp::WriteU8 { port: self.spec_control().spec_port(), value: 6 },
                PortOp::WriteU8 { port: self.spec_control().spec_port(), value: 2 },
            ],
    {
        let control = DeviceControl::new().with_interrupts_disabled();
        let mut ops = Vec::new();
        ops.push(self.control.write_device_control(control));
        ops.push(self.control.write_device_control(control.with_software_reset()));
        ops.push(self.control.write_device_control(control));
        assert(0u8 | 2u8 == 2u8 && (2u8 | 4u8) == 6u8) by (bit_vector);
        ops
    }

    /// The diagnostic code read after a reset decides its outcome.
    pub fn check_diagnostic(code: DiagnosticCode) -> (r: Result<(), AtaError>)
        ensures
            r == (if code.spec_raw() == 1 {
                Ok::<(), AtaError>(())
            } else {
                Err(AtaError::DiagnosticFailed(code))
            }),
    {
        if !code.is_success() {
            return Err(AtaError::DiagnosticFailed(code));
        }
        Ok(())
    }

    /// FLUSH CACHE, for a selected, idle drive.
    pub fn flush_cache(&self) -> (op: PortOp)
        ensures
            op == (PortOp::WriteU8 { port: self.spec_command().port(7), value: 0xE7 }),
    {
        self.write_command(Command::FlushCache)
    }

    /// FLUSH CACHE EXT, for a selected, idle drive.
    pub fn flush_cache_ext(&self) -> (op: PortOp)
        ensures
            op == (PortOp::WriteU8 { port: self.spec_command().port(7), value: 0xEA }),
    {
        self.write_command(Command::FlushCacheExt)
    }

    /// Checks the status at the end of a command; `error` is the error
    /// register, which matters only when the status reports an error.
    pub fn validate_command_status(status: Status, error: ErrorRegister) -> (r: Result<
        (),
        AtaError,
    >)
        ensures
            r == command_status_spec(status, error),
    {
        if status.has_device_fault() {
            return Err(AtaError::DeviceFault(status));
        }
        if status.has_error() {
            return Err(AtaError::CommandFailed { status, error });
        }
        Ok(())
    }

    /// A status of zero means no drive; all ones, a floating bus.
    pub fn validate_presence(status: Status) -> (r: Result<(), AtaError>)
        ensures
            r == presence_spec(status),
    {
        if status.is_zero() {
            return Err(AtaError::NoDevice);
        }
        if status.is_floating_bus() {
            return Err(AtaError::FloatingBus);
        }
        Ok(())
    }

    /// Decides on one alternate status read of a wait, after `polls`
    /// earlier reads were checked. A wait checks at most
    /// [`STATUS_POLL_LIMIT`] reads and fails with the next one.
    pub fn poll(condition: WaitCondition, status: Status, polls: usize) -> (r: PollStep)
        ensures
            r == poll_spec(condition, status, polls as int),
            r matches PollStep::Ready(s) ==> s == status && !status.spec_device_busy(),
    {
        if polls >= STATUS_POLL_LIMIT {
            return PollStep::Failed(AtaError::PollLimitExceeded(status));
        }
        match condition {
            WaitCondition::DeviceSelectable => {
                if status.is_floating_bus() {
                    return PollStep::Failed(AtaError::FloatingBus);
                }
                if !status.device_busy() && !status.data_requested() {
                    return PollStep::Ready(status);
                }
                PollStep::Again
            },
            WaitCondition::ResetComplete => {
                if status.is_floating_bus() {
                    return PollStep::Failed(AtaError::FloatingBus);
                }
                if !status.device_busy() {
                    return PollStep::Ready(status);
                }
                PollStep::Again
            },
            _ => {
                if let Err(e) = Self::validate_presence(status) {
                    return PollStep::Failed(e);
                }
                match condition {
                    WaitCondition::Idle => {
                        if !status.device_busy() && !status.data_requested() {
                            return PollStep::Ready(status);
                        }
                        PollStep::Again
                    },
                    WaitCondition::NotBusy => {
                        if !status.device_busy() {
                            return PollStep::Ready(status);
                        }
                        PollStep::Again
                    },
                    _ => {
                        if !status.device_busy() {
                            if status.has_device_fault() {
                                return PollStep::Failed(AtaError::DeviceFault(status));
                            }
                            if status.has_error() {
                                return PollStep::ReadErrorRegister(status);
                            }
                            if status.data_requested() {
                                return PollStep::Ready(status);
                            }
                        }
                        PollStep::Again
                    },
                }
            },
        }
    }

    /// The writes that start a transfer on the selected, idle drive: the
    /// address and count registers, then the command. The caller then moves
    /// one sector of data per data request, and checks the final status.
    pub fn start_transfer(&self, device: DeviceId, transfer: Transfer, direction: Direction) -> (ops:
        Vec<PortOp>)
        requires
            transfer.valid(),
        ensures
            ops@ == transfer_writes(self.spec_command(), device, transfer, direction),
    {
        match transfer {
            Transfer::Lba28 { lba, sector_count } => {
                let mut ops = self.command.write_lba28(device, lba);
                ops.push(self.command.write_sector_count(sector_count));
                let command = match direction {
                    Direction::Read => Command::ReadSectors,
                    Direction::Write => Command::WriteSectors,
                };
                ops.push(self.command.write_command(command));
                ops
            },
            Transfer::Lba48 { lba, sector_count } => {
                let mut ops = self.command.write_lba48(device, lba, sector_count);
                let command = match direction {
                    Direction::Read => Command::ReadSectorsExt,
                    Direction::Write => Command::WriteSectorsExt,
                };
                ops.push(self.command.write_command(command));
                ops
            },
        }
    }
}

/// Which way data moves.
#[derive(Debug, Clone, Copy, PartialEq, Eq, Structural)]
pub enum Direction {
    Read,
    Write,
}

/// How a run of sectors is addressed on the drive.
#[allow(inconsistent_fields)]
#[derive(Debug, Clone, Copy, PartialEq, Eq, Structural)]
pub enum Transfer {
    /// A 28-bit command for 1 to 256 sectors.
    Lba28 { lba: Lba28, sector_count: u16 },
    /// A 48-bit command for 1 to 65536 sectors.
    Lba48 { lba: Lba48, sector_count: u32 },
}

impl Transfer {
    pub open spec fn valid(self) -> bool {
        match self {
            Transfer::Lba28 { sector_count, .. } => 1 <= sector_count <= 256,
            Transfer::Lba48 { sector_count, .. } => 1 <= sector_count <= 65536,
        }
    }

    /// The first sector.
    pub open spec fn first_sector(self) -> int {
        match self {
            Transfer::Lba28 { lba, .. } => lba.spec_value() as int,
            Transfer::Lba48 { lba, .. } => lba.spec_value() as int,
        }
    }

    /// The number of sectors.
    pub open spec fn sectors(self) -> int {
        match self {
            Transfer::Lba28 { sector_count, .. } => sector_count as int,
            Transfer::Lba48 { sector_count, .. } => sector_count as int,
        }
    }
}

/// The writes that start a transfer.
pub open spec fn transfer_writes(
    block: &CommandBlock,
    device: DeviceId,
    transfer: Transfer,
    direction: Direction,
) -> Seq<PortOp> {
    match transfer {
        Transfer::Lba28 { lba, sector_count } => lba28_writes(block, device, lba.spec_value()).push(
            PortOp::WriteU8 { port: block.port(2), value: (sector_count % 256) as u8 },
        ).push(
            PortOp::WriteU8 {
                port: block.port(7),
                value: match direction {
                    Direction::Read => 0x20u8,
                    Direction::Write => 0x30u8,
                },
            },
        ),
        Transfer::Lba48 { lba, sector_count } => lba48_writes(
            block,
            device,
            lba.spec_value(),
            sector_count,
        ).push(
            PortOp::WriteU8 {
                port: block.port(7),
                value: match direction {
                    Direction::Read => 0x24u8,
                    Direction::Write => 0x34u8,
                },
            },
        ),
    }
}

/// Why a device operation failed.
#[derive(Debug, Clone, Copy, PartialEq, Eq, Structural)]
pub enum AtaDeviceError {
    Ata(AtaError),
    InvalidSectorCount(u64),
    InvalidSectorSize(u32),
    LbaOutOfRange,
    LbaUnsupported,
    Lba48Unsupported,
}

/// An ATA drive, as described by its identify data.
#[derive(Debug)]
pub struct AtaDevice {
    channel: ChannelId,
    device: DeviceId,
    sector_size: u32,
    sector_count: u64,
    supports_lba48: bool,
}

impl AtaDevice {
    #[verifier::type_invariant]
    closed spec fn inv(self) -> bool {
        self.sector_size != 0 && self.sector_size % 2 == 0 && self.sector_count != 0
    }

    pub closed spec fn spec_channel(&self) -> ChannelId {
        self.channel
    }

    pub closed spec fn spec_device(&self) -> DeviceId {
        self.device
    }

    /// Bytes per logical sector: even and not zero.
    pub closed spec fn spec_sector_size(&self) -> u32 {
        self.sector_size
    }

    /// Logical sectors on the drive: not zero.
    pub closed spec fn spec_sector_count(&self) -> u64 {
        self.sector_count
    }

    pub closed spec fn spec_supports_lba48(&self) -> bool {
        self.supports_lba48
    }

    /// Words per logical sector.
    pub open spec fn words_per_sector(&self) -> int {
        self.spec_sector_size() as int / 2
    }

    /// Describes the drive from its identify data: the sector size must be
    /// even and not zero, and the drive must have logical block addressing
    /// and sectors.
    pub fn from_identify(channel: ChannelId, device: DeviceId, identify: &IdentifyData) -> (r:
        Result<Self, AtaDeviceError>)
        requires
            identify_sector_size(identify.words()) <= u32::MAX,
        ensures
            ({
                let w = identify.words();
                let size = identify_sector_size(w);
                match r {
                    Ok(d) => {
                        &&& size != 0 && size % 2 == 0
                        &&& identify_sector_count(w) matches Some(c) && c != 0
                        &&& d.spec_channel() == channel
                        &&& d.spec_device() == device
                        &&& d.spec_sector_size() == size
                        &&& Some(d.spec_sector_count()) == identify_sector_count(w)
                        &&& d.spec_supports_lba48() == identify_supports_lba48(w)
                    },
                    Err(AtaDeviceError::InvalidSectorSize(s)) => s == size && (size == 0 || size
                        % 2 != 0),
                    Err(AtaDeviceError::LbaUnsupported) => size != 0 && size % 2 == 0
                        && identify_sector_count(w) is None,
                    Err(AtaDeviceError::InvalidSectorCount(c)) => size != 0 && size % 2 == 0
                        && identify_sector_count(w) == Some(c) && c == 0,
                    Err(_) => false,
                }
            }),
    {
        let sector_size = identify.logical_sector_size();
        if sector_size == 0 || sector_size % 2 != 0 {
            return Err(AtaDeviceError::InvalidSectorSize(sector_size));
        }
        let sector_count = match identify.logical_sector_count() {
            Some(count) => count,
            None => return Err(AtaDeviceError::LbaUnsupported),
        };
        if sector_count == 0 {
            return Err(AtaDeviceError::InvalidSectorCount(sector_count));
        }
        Ok(
            Self {
                channel,
                device,
                sector_size,
                sector_count,
                supports_lba48: identify.supports_lba48(),
            },
        )
    }

    #[verifier::when_used_as_spec(spec_channel)]
    pub fn channel(&self) -> (r: ChannelId)
        ensures
            r == self.spec_channel(),
    {
        self.channel
    }

    #[verifier::when_used_as_spec(spec_device)]
    pub fn device(&self) -> (r: DeviceId)
        ensures
            r == self.spec_device(),
    {
        self.device
    }

    #[verifier::when_used_as_spec(spec_sector_size)]
    pub fn sector_size(&self) -> (r: u32)
        ensures
            r == self.spec_sector_size(),
            r != 0 && r % 2 == 0,
    {
        proof {
            use_type_invariant(self);
        }
        self.sector_size
    }

    #[verifier::when_used_as_spec(spec_sector_count)]
    pub fn sector_count(&self) -> (r: u64)
        ensures
            r == self.spec_sector_count(),
            r != 0,
    {
        proof {
            use_type_invariant(self);
        }
        self.sector_count
    }

    /// Whether the drive has 48-bit addressing.
    #[verifier::when_used_as_spec(spec_supports_lba48)]
    pub fn supports_lba48(&self) -> (r: bool)
        ensures
            r == self.spec_supports_lba48(),
    {
        self.supports_lba48
    }

    /// Whether a buffer of `buffer_len` words is a whole, non-zero number
    /// of sectors that fits a 32-bit count.
    pub open spec fn buffer_fits(&self, buffer_len: int) -> bool {
        &&& buffer_len > 0
        &&& buffer_len % self.words_per_sector() == 0
        &&& buffer_len / self.words_per_sector() <= u32::MAX
    }

    /// The transfer a request of `buffer_len` words from `lba` needs: a
    /// 28-bit command when the run has at most 256 sectors that all have
    /// 28-bit addresses, a 48-bit command otherwise.
    pub open spec fn plan_spec(&self, lba: Lba48, buffer_len: int) -> Result<Transfer, AtaDeviceError> {
        let count = buffer_len / self.words_per_sector();
        let first = lba.spec_value() as int;
        if count <= 256 && first + count - 1 <= LBA28_MAX {
            if first + count <= self.spec_sector_count() {
                Ok(Transfer::Lba28 { lba: lba28_of(lba), sector_count: count as u16 })
            } else {
                Err(AtaDeviceError::LbaOutOfRange)
            }
        } else if !self.spec_supports_lba48() {
            Err(AtaDeviceError::Lba48Unsupported)
        } else if first + count - 1 <= LBA48_MAX && first + count <= self.spec_sector_count() {
            Ok(Transfer::Lba48 { lba, sector_count: count as u32 })
        } else {
            Err(AtaDeviceError::LbaOutOfRange)
        }
    }

    /// Plans a transfer of the `buffer_len` words of a buffer from or to
    /// the sectors starting at `lba`. A run of more than 65536 sectors on a
    /// drive with 48-bit addressing is left out.
    fn plan(&self, lba: Lba48, buffer_len: usize) -> (r: Result<Transfer, AtaDeviceError>)
        requires
            self.buffer_fits(buffer_len as int),
            buffer_len as int / self.words_per_sector() <= 65536 || !self.spec_supports_lba48(),
        ensures
            r == self.plan_spec(lba, buffer_len as int),
            r matches Ok(t) ==> t.valid() && t.first_sector() == lba.spec_value() && t.sectors()
                == buffer_len as int / self.words_per_sector() && t.first_sector() + t.sectors()
                <= self.spec_sector_count(),
    {
        proof {
            use_type_invariant(self);
        }
        let words_per_sector = (self.sector_size / 2) as usize;
        let sector_count = buffer_len / words_per_sector;
        proof {
            let wps = words_per_sector as int;
            assert(buffer_len as int / wps >= 1) by (nonlinear_arith)
                requires
                    buffer_len > 0,
                    buffer_len as int % wps == 0,
                    wps > 0,
            ;
        }
        let sector_count = sector_count as u32;
        if sector_count <= 256 {
            if let Some(lba28) = lba.as_lba28() {
                if lba28.is_range_addressable(sector_count as u16) {
                    if !lba28.is_range_addressable_on_device(
                        sector_count as u16,
                        self.sector_count,
                    ) {
                        return Err(AtaDeviceError::LbaOutOfRange);
                    }
                    assert(lba28 == lba28_of(lba));
                    return Ok(Transfer::Lba28 { lba: lba28, sector_count: sector_count as u16 });
                }
            }
        }
        if !self.supports_lba48 {
            return Err(AtaDeviceError::Lba48Unsupported);
        }
        if !lba.is_range_addressable_on_device(sector_count, self.sector_count) {
            return Err(AtaDeviceError::LbaOutOfRange);
        }
        Ok(Transfer::Lba48 { lba, sector_count })
    }

    /// Plans reading the sectors from `lba` into a buffer of `buffer_len`
    /// words: the transfer to start with [`Channel::start_transfer`].
    pub fn read_sectors(&self, lba: Lba48, buffer_len: usize) -> (r: Result<
        Transfer,
        AtaDeviceError,
    >)
        requires
            self.buffer_fits(buffer_len as int),
            buffer_len as int / self.words_per_sector() <= 65536 || !self.spec_supports_lba48(),
        ensures
            r == self.plan_spec(lba, buffer_len as int),
            r matches Ok(t) ==> t.valid() && t.first_sector() == lba.spec_value() && t.sectors()
                == buffer_len as int / self.words_per_sector() && t.first_sector() + t.sectors()
                <= self.spec_sector_count(),
    {
        self.plan(lba, buffer_len)
    }

    /// Plans writing a buffer of `buffer_len` words to the sectors from
    /// `lba`: the transfer to start with [`Channel::start_transfer`].
    pub fn write_sectors(&self, lba: Lba48, buffer_len: usize) -> (r: Result<
        Transfer,
        AtaDeviceError,
    >)
        requires
            self.buffer_fits(buffer_len as int),
            buffer_len as int / self.words_per_sector() <= 65536 || !self.spec_supports_lba48(),
        ensures
            r == self.plan_spec(lba, buffer_len as int),
            r matches Ok(t) ==> t.valid() && t.first_sector() == lba.spec_value() && t.sectors()
                == buffer_len as int / self.words_per_sector() && t.first_sector() + t.sectors()
                <= self.spec_sector_count(),
    {
        self.plan(lba, buffer_len)
    }

    /// The flush command for this drive: FLUSH CACHE EXT on a drive with
    /// 48-bit addressing, FLUSH CACHE otherwise.
    pub fn flush(&self) -> (r: Command)
        ensures
            r == (if self.spec_supports_lba48() {
                Command::FlushCacheExt
            } else {
                Command::FlushCache
            }),
    {
        if self.supports_lba48 {
            Command::FlushCacheExt
        } else {
            Command::FlushCache
        }
    }
}

/// The 28-bit form of an address that has one.
pub open spec fn lba28_of(lba: Lba48) -> Lba28 {
    Lba28::spec_from(lba.spec_value() as u32)
}

/// How a transfer is planned: a run of at most 256 sectors that all have
/// 28-bit addresses and lie inside the drive goes through a 28-bit command
/// for exactly that run, whatever the drive supports; 48-bit addressing is
/// missing only for a run of more than 256 sectors or one reaching past
/// sector 0x0FFF_FFFF; a planned transfer covers exactly the requested run,
/// inside the drive; and a run that ends past the drive is refused.
pub proof fn lemma_transfer_plan(device: AtaDevice, lba: Lba48, buffer_len: int)
    requires
        device.words_per_sector() > 0,
        device.buffer_fits(buffer_len),
    ensures
        ({
            let count = buffer_len / device.words_per_sector();
            let first = lba.spec_value() as int;
            let planned = device.plan_spec(lba, buffer_len);
            &&& (count <= 256 && first + count <= 0x1000_0000 && first + count
                <= device.spec_sector_count()) ==> (planned matches Ok(t) && t is Lba28
                && t.first_sector() == first && t.sectors() == count)
            &&& planned == Err::<Transfer, AtaDeviceError>(AtaDeviceError::Lba48Unsupported) ==> (
            !device.spec_supports_lba48() && (count > 256 || first + count > 0x1000_0000))
            &&& planned matches Ok(t) ==> (t.first_sector() == first && t.sectors() == count
                && first + count <= device.spec_sector_count())
            &&& first + count > device.spec_sector_count() ==> planned == Err::<
                Transfer,
                AtaDeviceError,
            >(AtaDeviceError::LbaOutOfRange) || planned == Err::<Transfer, AtaDeviceError>(
                AtaDeviceError::Lba48Unsupported,
            )
        }),
{
    let count = buffer_len / device.words_per_sector();
    let first = lba.spec_value() as int;
    if count <= 256 && first + count - 1 <= LBA28_MAX {
        assert(lba28_of(lba).spec_value() == lba.spec_value() as u32);
    }
}

/// The sector count of identify data, 16 bits at a time: with 48-bit
/// addressing, words 100 to 103 are its four 16-bit pieces, lowest first;
/// with only 28-bit addressing, words 60 and 61 are its two low pieces and
/// the rest is zero; without logical block addressing there is none.
pub proof fn lemma_identify_sector_count_words(w: Seq<u16>)
    ensures
        identify_supports_lba48(w) ==> (identify_sector_count(w) matches Some(c) && c as u16
            == w[100] && (c >> 16u64) as u16 == w[101] && (c >> 32u64) as u16 == w[102] && (c
            >> 48u64) as u16 == w[103]),
        !identify_supports_lba48(w) && identify_supports_lba(w) ==> (identify_sector_count(w) matches Some(c)
            && c as u16 == w[60] && (c >> 16u64) as u16 == w[61] && c >> 32u64 == 0),
        !identify_supports_lba48(w) && !identify_supports_lba(w) ==> identify_sector_count(w) is None,
{
    if identify_supports_lba48(w) {
        let (w0, w1, w2, w3) = (w[100] as u64, w[101] as u64, w[102] as u64, w[103] as u64);
        let c = identify_sector_count(w).unwrap();
        assert(c == w0 + 0x1_0000 * w1 + 0x1_0000_0000 * w2 + 0x1_0000_0000_0000 * w3);
        assert(c as u16 == w0 as u16 && (c >> 16u64) as u16 == w1 as u16 && (c >> 32u64) as u16
            == w2 as u16 && (c >> 48u64) as u16 == w3 as u16) by (bit_vector)
            requires
                w0 < 65536,
                w1 < 65536,
                w2 < 65536,
                w3 < 65536,
                c == w0 + 0x1_0000 * w1 + 0x1_0000_0000 * w2 + 0x1_0000_0000_0000 * w3,
        ;
    } else if identify_supports_lba(w) {
        let (w0, w1) = (w[60] as u64, w[61] as u64);
        let c = identify_sector_count(w).unwrap();
        assert(c == w0 + 0x1_0000 * w1);
        assert(c as u16 == w0 as u16 && (c >> 16u64) as u16 == w1 as u16 && c >> 32u64 == 0)
            by (bit_vector)
            requires
                w0 < 65536,
                w1 < 65536,
                c == w0 + 0x1_0000 * w1,
        ;
    }
}

/// The IDE controllers among enumerated PCI functions, in order.
pub fn controllers(functions: &Vec<(FunctionAddress, Class)>) -> (r: Vec<FunctionAddress>)
    ensures
        r@ == functions@.filter(|f: (FunctionAddress, Class)| is_ide_controller(f.1)).map_values(
            |f: (FunctionAddress, Class)| f.0,
        ),
{
    let mut r: Vec<FunctionAddress> = Vec::new();
    let mut i: usize = 0;
    while i < functions.len()
        invariant
            i <= functions@.len(),
            r@ == functions@.subrange(0, i as int).filter(
                |f: (FunctionAddress, Class)| is_ide_controller(f.1),
            ).map_values(|f: (FunctionAddress, Class)| f.0),
        decreases functions@.len() - i,
    {
        let (function, class) = functions[i];
        proof {
            reveal(Seq::filter);
            assert(functions@.subrange(0, i + 1).drop_last() == functions@.subrange(0, i as int));
        }
        if class.class() == MASS_STORAGE_CLASS && class.subclass() == IDE_SUBCLASS {
            r.push(function);
        }
        i = i + 1;
    }
    assert(functions@.subrange(0, functions@.len() as int) == functions@);
    r
}

/// Mass storage class, IDE subclass.
pub open spec fn is_ide_controller(class: Class) -> bool {
    class.class == MASS_STORAGE_CLASS && class.subclass == IDE_SUBCLASS
}

} // verus!
