//! The Intel 82540EM (e1000) network controller: finding it on the PCI
//! bus, checking its base address registers and command register, and the
//! register accesses that reset it and set up its receive ring.
use crate::io::PortOp;
use crate::mmio::{MmioOp, MmioRegion};
use crate::pci::{
    bar_spec, find_io_bar, find_io_bar_from, get_bar, Bar, BarIndex, CommandRegister,
    ConfigSpace, FunctionAddress, IoBar, MemoryBar,
};
use vstd::prelude::*;

verus! {

pub const INTEL_VENDOR_ID: u16 = 0x8086;

pub const I82540EM_DEVICE_ID: u16 = 0x100E;

/// Bytes of the memory-mapped register space.
pub const REGISTER_SPACE_SIZE: usize = 131072;

pub const CTRL_REGISTER_OFFSET: usize = 0x0000;

pub const STATUS_REGISTER_OFFSET: usize = 0x0008;

pub const ICR_REGISTER_OFFSET: usize = 0x00c0;

pub const IMC_REGISTER_OFFSET: usize = 0x00d8;

pub const RCTL_REGISTER_OFFSET: usize = 0x0100;

pub const TCTL_REGISTER_OFFSET: usize = 0x0400;

pub const RDBAL_REGISTER_OFFSET: usize = 0x2800;

pub const RDBAH_REGISTER_OFFSET: usize = 0x2804;

pub const RDLEN_REGISTER_OFFSET: usize = 0x2808;

pub const RDH_REGISTER_OFFSET: usize = 0x2810;

pub const RDT_REGISTER_OFFSET: usize = 0x2818;

pub const RAL0_REGISTER_OFFSET: usize = 0x5400;

pub const RAH0_REGISTER_OFFSET: usize = 0x5404;

/// CTRL bit 26: device reset.
pub const CTRL_RST: u32 = 0x0400_0000;

/// TCTL bit 3: pad short packets.
pub const TCTL_PSP: u32 = 0x8;

/// Receive descriptors in the ring.
pub const RX_DESCRIPTOR_COUNT: usize = 64;

/// Bytes of one receive descriptor.
pub const RX_DESCRIPTOR_SIZE: usize = 16;

/// Bytes of the receive descriptor ring.
pub const RX_DESCRIPTOR_RING_SIZE: usize = 1024;

/// Bytes of one receive buffer; two fit in a page.
pub const RX_BUFFER_SIZE: usize = 2048;

/// Pages holding the receive buffers.
pub const RX_BUFFER_POOL_PAGE_COUNT: usize = 32;

/// Why the controller could not be brought up.
#[derive(Debug, Clone, Copy, PartialEq, Eq, Structural)]
pub enum Error {
    IoBarUnavailable,
    RegistersBarUnavailable,
    IoSpaceEnableFailed,
    MemorySpaceEnableFailed,
    BusMasterEnableFailed,
    ResetFailed,
    RxRingAllocationFailed,
}

/// The device status register.
#[derive(Debug, Clone, Copy, PartialEq, Eq, Structural)]
pub struct StatusRegister(pub u32);

impl StatusRegister {
    pub fn from_raw(raw: u32) -> (r: Self)
        ensures
            r.0 == raw,
    {
        Self(raw)
    }

    pub fn raw(self) -> (r: u32)
        ensures
            r == self.0,
    {
        self.0
    }
}

/// Whether a PCI function with these vendor and device numbers is an
/// 82540EM.
pub open spec fn is_i82540em(vendor: Option<u16>, device: u16) -> bool {
    vendor == Some(INTEL_VENDOR_ID) && device == I82540EM_DEVICE_ID
}

/// The first of `functions` (each with its vendor number, `None` when no
/// function answers, and its device number) that is an 82540EM.
pub fn find(functions: &Vec<(FunctionAddress, Option<u16>, u16)>) -> (r: Option<FunctionAddress>)
    ensures
        match r {
            Some(f) => exists|i: int|
                0 <= i < functions@.len() && #[trigger] functions@[i].0 == f && is_i82540em(
                    functions@[i].1,
                    functions@[i].2,
                ) && forall|j: int|
                    0 <= j < i ==> !is_i82540em(#[trigger] functions@[j].1, functions@[j].2),
            None => forall|j: int|
                0 <= j < functions@.len() ==> !is_i82540em(#[trigger] functions@[j].1, functions@[j].2),
        },
{
    let mut i: usize = 0;
    while i < functions.len()
        invariant
            i <= functions@.len(),
            forall|j: int| 0 <= j < i ==> !is_i82540em(#[trigger] functions@[j].1, functions@[j].2),
        decreases functions@.len() - i,
    {
        let (function, vendor, device) = functions[i];
        if vendor == Some(INTEL_VENDOR_ID) && device == I82540EM_DEVICE_ID {
            proof {
                assert(functions@[i as int].0 == function);
            }
            return Some(function);
        }
        i = i + 1;
    }
    None
}

/// The base address registers the driver uses: the first I/O base, and
/// base 0, which must be a memory base.
pub fn find_bars(config: &ConfigSpace) -> (r: Result<(IoBar, MemoryBar), Error>)
    ensures
        match find_io_bar_from(config@, 0, false) {
            None => r == Err::<(IoBar, MemoryBar), Error>(Error::IoBarUnavailable),
            Some(io) => match bar_spec(config@, 0) {
                Some(Bar::Memory(m)) => r == Ok::<(IoBar, MemoryBar), Error>((io, m)),
                _ => r == Err::<(IoBar, MemoryBar), Error>(Error::RegistersBarUnavailable),
            },
        },
{
    let io_bar = match find_io_bar(config) {
        Some(bar) => bar,
        None => return Err(Error::IoBarUnavailable),
    };
    match get_bar(config, BarIndex::Bar0) {
        Some(Bar::Memory(bar)) => Ok((io_bar, bar)),
        _ => Err(Error::RegistersBarUnavailable),
    }
}

/// The command register with I/O space, memory space and bus mastering
/// enabled.
pub fn enabled_command(command: CommandRegister) -> (r: CommandRegister)
    ensures
        r.spec_raw() == command.spec_raw() | 7,
{
    let r = command.with_io_space_enabled().with_memory_space_enabled().with_bus_master_enabled();
    let raw = command.raw();
    assert(raw | 1 | 2 | 4 == raw | 7) by (bit_vector);
    r
}

/// Checks the command register read back after enabling: each of I/O
/// space, memory space and bus mastering must have stuck, checked in that
/// order.
pub fn check_command(command: CommandRegister) -> (r: Result<(), Error>)
    ensures
        r == if command.spec_raw() & 1 == 0 {
            Err::<(), Error>(Error::IoSpaceEnableFailed)
        } else if command.spec_raw() & 2 == 0 {
            Err::<(), Error>(Error::MemorySpaceEnableFailed)
        } else if command.spec_raw() & 4 == 0 {
            Err::<(), Error>(Error::BusMasterEnableFailed)
        } else {
            Ok::<(), Error>(())
        },
{
    if !command.io_space_enabled() {
        return Err(Error::IoSpaceEnableFailed);
    }
    if !command.memory_space_enabled() {
        return Err(Error::MemorySpaceEnableFailed);
    }
    if !command.bus_master_enabled() {
        return Err(Error::BusMasterEnableFailed);
    }
    Ok(())
}

/// Whether 32-bit accesses to every register the driver uses are allowed
/// in `registers`.
pub open spec fn registers_ok(registers: &MmioRegion) -> bool {
    &&& registers.can_access(CTRL_REGISTER_OFFSET, 4, 4)
    &&& registers.can_access(STATUS_REGISTER_OFFSET, 4, 4)
    &&& registers.can_access(ICR_REGISTER_OFFSET, 4, 4)
    &&& registers.can_access(IMC_REGISTER_OFFSET, 4, 4)
    &&& registers.can_access(RCTL_REGISTER_OFFSET, 4, 4)
    &&& registers.can_access(TCTL_REGISTER_OFFSET, 4, 4)
    &&& registers.can_access(RDBAL_REGISTER_OFFSET, 4, 4)
    &&& registers.can_access(RDBAH_REGISTER_OFFSET, 4, 4)
    &&& registers.can_access(RDLEN_REGISTER_OFFSET, 4, 4)
    &&& registers.can_access(RDH_REGISTER_OFFSET, 4, 4)
    &&& registers.can_access(RDT_REGISTER_OFFSET, 4, 4)
    &&& registers.can_access(RAL0_REGISTER_OFFSET, 4, 4)
    &&& registers.can_access(RAH0_REGISTER_OFFSET, 4, 4)
}

/// Whether 32-bit accesses to every register the driver uses are allowed.
pub fn registers_accessible(registers: &MmioRegion) -> (r: bool)
    ensures
        r == registers_ok(registers),
{
    registers.allows(CTRL_REGISTER_OFFSET, 4, 4) && registers.allows(STATUS_REGISTER_OFFSET, 4, 4)
        && registers.allows(ICR_REGISTER_OFFSET, 4, 4) && registers.allows(IMC_REGISTER_OFFSET, 4, 4)
        && registers.allows(RCTL_REGISTER_OFFSET, 4, 4) && registers.allows(TCTL_REGISTER_OFFSET, 4, 4)
        && registers.allows(RDBAL_REGISTER_OFFSET, 4, 4) && registers.allows(
        RDBAH_REGISTER_OFFSET,
        4,
        4,
    ) && registers.allows(RDLEN_REGISTER_OFFSET, 4, 4) && registers.allows(RDH_REGISTER_OFFSET, 4, 4)
        && registers.allows(RDT_REGISTER_OFFSET, 4, 4) && registers.allows(RAL0_REGISTER_OFFSET, 4, 4)
        && registers.allows(RAH0_REGISTER_OFFSET, 4, 4)
}

/// The address of a 32-bit register.
pub open spec fn register(registers: &MmioRegion, offset: usize) -> u64 {
    (registers.spec_base() + offset) as u64
}

/// Quiets the controller before a reset: all interrupts masked, receive and
/// transmit stopped (short packets padded), then a read of the status
/// register to flush the writes. The caller then waits 10 ms.
pub fn reset_quiesce_ops(registers: &MmioRegion) -> (r: Vec<MmioOp>)
    requires
        registers_ok(registers),
    ensures
        r@ == seq![
            MmioOp::WriteU32 { address: register(registers, IMC_REGISTER_OFFSET), value: 0xffff_ffff },
            MmioOp::WriteU32 { address: register(registers, RCTL_REGISTER_OFFSET), value: 0 },
            MmioOp::WriteU32 { address: register(registers, TCTL_REGISTER_OFFSET), value: TCTL_PSP },
            MmioOp::ReadU32 { address: register(registers, STATUS_REGISTER_OFFSET) },
        ],
{
    let mut ops: Vec<MmioOp> = Vec::new();
    ops.push(registers.write_u32(IMC_REGISTER_OFFSET, 0xffff_ffff));
    ops.push(registers.write_u32(RCTL_REGISTER_OFFSET, 0));
    ops.push(registers.write_u32(TCTL_REGISTER_OFFSET, TCTL_PSP));
    ops.push(registers.read_u32(STATUS_REGISTER_OFFSET));
    proof {
        assert(ops@ =~= seq![
            MmioOp::WriteU32 { address: register(registers, IMC_REGISTER_OFFSET), value: 0xffff_ffff },
            MmioOp::WriteU32 { address: register(registers, RCTL_REGISTER_OFFSET), value: 0 },
            MmioOp::WriteU32 { address: register(registers, TCTL_REGISTER_OFFSET), value: TCTL_PSP },
            MmioOp::ReadU32 { address: register(registers, STATUS_REGISTER_OFFSET) },
        ]);
    }
    ops
}

/// Writes a register through the I/O window: the register offset to the
/// address port at the I/O base, then the value to the data port four
/// ports up. The data port must exist and the offset fit in 32 bits.
pub fn write_register_io(io_bar: IoBar, offset: usize, value: u32) -> (r: Vec<PortOp>)
    requires
        io_bar.base + 4 <= u16::MAX,
        offset <= u32::MAX,
    ensures
        r@ == seq![
            PortOp::WriteU32 { port: io_bar.base, value: offset as u32 },
            PortOp::WriteU32 { port: (io_bar.base + 4) as u16, value },
        ],
{
    let base = io_bar.base();
    let mut ops: Vec<PortOp> = Vec::new();
    ops.push(PortOp::WriteU32 { port: base, value: offset as u32 });
    ops.push(PortOp::WriteU32 { port: base + 4, value });
    proof {
        assert(ops@ =~= seq![
            PortOp::WriteU32 { port: io_bar.base, value: offset as u32 },
            PortOp::WriteU32 { port: (io_bar.base + 4) as u16, value },
        ]);
    }
    ops
}

/// Requests a reset: the control register, as read (`ctrl`), with the
/// reset bit set, written through the I/O window. The caller then waits
/// 5 ms.
pub fn reset_request_ops(io_bar: IoBar, ctrl: u32) -> (r: Vec<PortOp>)
    requires
        io_bar.base + 4 <= u16::MAX,
    ensures
        r@ == seq![
            PortOp::WriteU32 { port: io_bar.base, value: CTRL_REGISTER_OFFSET as u32 },
            PortOp::WriteU32 { port: (io_bar.base + 4) as u16, value: ctrl | CTRL_RST },
        ],
{
    write_register_io(io_bar, CTRL_REGISTER_OFFSET, ctrl | CTRL_RST)
}

/// The reset is done when the control register, read again, has the reset
/// bit clear.
pub fn check_reset(ctrl: u32) -> (r: Result<(), Error>)
    ensures
        r == if ctrl & CTRL_RST != 0 {
            Err::<(), Error>(Error::ResetFailed)
        } else {
            Ok::<(), Error>(())
        },
{
    if ctrl & CTRL_RST != 0 {
        return Err(Error::ResetFailed);
    }
    Ok(())
}

/// After a reset: interrupts masked again, and pending interrupt causes
/// cleared by reading the cause register.
pub fn reset_finish_ops(registers: &MmioRegion) -> (r: Vec<MmioOp>)
    requires
        registers_ok(registers),
    ensures
        r@ == seq![
            MmioOp::WriteU32 { address: register(registers, IMC_REGISTER_OFFSET), value: 0xffff_ffff },
            MmioOp::ReadU32 { address: register(registers, ICR_REGISTER_OFFSET) },
        ],
{
    let mut ops: Vec<MmioOp> = Vec::new();
    ops.push(registers.write_u32(IMC_REGISTER_OFFSET, 0xffff_ffff));
    ops.push(registers.read_u32(ICR_REGISTER_OFFSET));
    proof {
        assert(ops@ =~= seq![
            MmioOp::WriteU32 { address: register(registers, IMC_REGISTER_OFFSET), value: 0xffff_ffff },
            MmioOp::ReadU32 { address: register(registers, ICR_REGISTER_OFFSET) },
        ]);
    }
    ops
}

/// Points the controller at a receive ring at physical address
/// `ring_address`: its low and high halves, its length, and head and tail
/// at 0.
pub fn configure_rx_ring_ops(registers: &MmioRegion, ring_address: u64) -> (r: Vec<MmioOp>)
    requires
        registers_ok(registers),
    ensures
        r@ == seq![
            MmioOp::WriteU32 {
                address: register(registers, RDBAL_REGISTER_OFFSET),
                value: (ring_address % 0x1_0000_0000) as u32,
            },
            MmioOp::WriteU32 {
                address: register(registers, RDBAH_REGISTER_OFFSET),
                value: (ring_address / 0x1_0000_0000) as u32,
            },
            MmioOp::WriteU32 {
                address: register(registers, RDLEN_REGISTER_OFFSET),
                value: RX_DESCRIPTOR_RING_SIZE as u32,
            },
            MmioOp::WriteU32 { address: register(registers, RDH_REGISTER_OFFSET), value: 0 },
            MmioOp::WriteU32 { address: register(registers, RDT_REGISTER_OFFSET), value: 0 },
        ],
{
    let low = (ring_address & 0xffff_ffff) as u32;
    let high = (ring_address >> 32u64) as u32;
    assert((ring_address & 0xffff_ffff) == ring_address % 0x1_0000_0000 && (ring_address >> 32u64)
        == ring_address / 0x1_0000_0000) by (bit_vector);
    let mut ops: Vec<MmioOp> = Vec::new();
    ops.push(registers.write_u32(RDBAL_REGISTER_OFFSET, low));
    ops.push(registers.write_u32(RDBAH_REGISTER_OFFSET, high));
    ops.push(registers.write_u32(RDLEN_REGISTER_OFFSET, RX_DESCRIPTOR_RING_SIZE as u32));
    ops.push(registers.write_u32(RDH_REGISTER_OFFSET, 0));
    ops.push(registers.write_u32(RDT_REGISTER_OFFSET, 0));
    proof {
        assert(ops@ =~= seq![
            MmioOp::WriteU32 {
                address: register(registers, RDBAL_REGISTER_OFFSET),
                value: (ring_address % 0x1_0000_0000) as u32,
            },
            MmioOp::WriteU32 {
                address: register(registers, RDBAH_REGISTER_OFFSET),
                value: (ring_address / 0x1_0000_0000) as u32,
            },
            MmioOp::WriteU32 {
                address: register(registers, RDLEN_REGISTER_OFFSET),
                value: RX_DESCRIPTOR_RING_SIZE as u32,
            },
            MmioOp::WriteU32 { address: register(registers, RDH_REGISTER_OFFSET), value: 0 },
            MmioOp::WriteU32 { address: register(registers, RDT_REGISTER_OFFSET), value: 0 },
        ]);
    }
    ops
}

/// The receive buffer of each descriptor: descriptor `i` gets half `i % 2`
/// of buffer page `i / 2`, given the physical addresses of the 32 buffer
/// pages (each with room for two buffers below the end of the address
/// space).
pub fn rx_buffer_addresses(page_addresses: &Vec<u64>) -> (r: Vec<u64>)
    requires
        page_addresses@.len() == RX_BUFFER_POOL_PAGE_COUNT,
        forall|p: int|
            0 <= p < page_addresses@.len() ==> #[trigger] page_addresses@[p] + RX_BUFFER_SIZE <= u64::MAX,
    ensures
        r@.len() == RX_DESCRIPTOR_COUNT,
        forall|i: int|
            0 <= i < RX_DESCRIPTOR_COUNT ==> #[trigger] r@[i] == page_addresses@[i / 2] + (i % 2)
                * RX_BUFFER_SIZE,
{
    let mut addresses: Vec<u64> = Vec::new();
    let mut index: usize = 0;
    while index < RX_DESCRIPTOR_COUNT
        invariant
            index <= RX_DESCRIPTOR_COUNT,
            page_addresses@.len() == RX_BUFFER_POOL_PAGE_COUNT,
            forall|p: int|
                0 <= p < page_addresses@.len() ==> #[trigger] page_addresses@[p] + RX_BUFFER_SIZE
                    <= u64::MAX,
            addresses@.len() == index,
            forall|i: int|
                0 <= i < index ==> #[trigger] addresses@[i] == page_addresses@[i / 2] + (i % 2)
                    * RX_BUFFER_SIZE,
        decreases RX_DESCRIPTOR_COUNT - index,
    {
        let page = page_addresses[index / 2];
        let offset = (index % 2) * RX_BUFFER_SIZE;
        addresses.push(page + offset as u64);
        index = index + 1;
    }
    addresses
}

} // verus!
