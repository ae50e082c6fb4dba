//! Memory-mapped device registers: a region of kernel virtual memory and
//! the checked addresses of accesses inside it.
use crate::loader::is_canonical;
use vstd::prelude::*;

verus! {

#[allow(inconsistent_fields)]
/// One access to a device register in memory, to be carried out by the
/// caller with a volatile load or store. A read gives the caller a value.
#[derive(Debug, Clone, Copy, PartialEq, Eq, Structural)]
pub enum MmioOp {
    ReadU8 { address: u64 },
    ReadU16 { address: u64 },
    ReadU32 { address: u64 },
    ReadU64 { address: u64 },
    WriteU8 { address: u64, value: u8 },
    WriteU16 { address: u64, value: u16 },
    WriteU32 { address: u64, value: u32 },
    WriteU64 { address: u64, value: u64 },
}

/// Whether an access of `size` bytes at `offset` in a region of `len`
/// bytes at virtual address `base` is allowed: inside the region, at a
/// representable canonical address that is a multiple of the access's
/// alignment.
pub open spec fn access_ok(base: u64, len: usize, offset: usize, size: usize, align: usize) -> bool {
    &&& offset + size <= len
    &&& base + offset <= u64::MAX
    &&& align > 0
    &&& (base + offset) % align as int == 0
    &&& is_canonical((base + offset) as u64)
}

/// Device registers mapped at `base` in kernel virtual memory, `len` bytes
/// long.
#[derive(Debug, Clone, Copy, PartialEq, Eq, Structural)]
pub struct MmioRegion {
    base: u64,
    len: usize,
}

impl MmioRegion {
    pub closed spec fn spec_base(&self) -> u64 {
        self.base
    }

    pub closed spec fn spec_len(&self) -> usize {
        self.len
    }

    /// Whether an access of `size` bytes aligned to `align` at `offset` is
    /// allowed.
    pub open spec fn can_access(&self, offset: usize, size: usize, align: usize) -> bool {
        access_ok(self.spec_base(), self.spec_len(), offset, size, align)
    }

    /// The registers at `physical_base`, `len` bytes long, seen through the
    /// mapping of all physical memory at `physical_memory_offset`. The
    /// region must not be empty.
    pub fn new(physical_memory_offset: u64, physical_base: u64, len: usize) -> (r: Self)
        requires
            len != 0,
            physical_memory_offset + physical_base <= u64::MAX,
            is_canonical((physical_memory_offset + physical_base) as u64),
        ensures
            r.spec_base() == physical_memory_offset + physical_base,
            r.spec_len() == len,
    {
        let base = crate::memory::phys_to_virt(physical_memory_offset, physical_base);
        Self { base, len }
    }

    /// The virtual address of the region.
    pub fn base(&self) -> (r: u64)
        ensures
            r == self.spec_base(),
    {
        self.base
    }

    /// The length of the region in bytes.
    pub fn len(&self) -> (r: usize)
        ensures
            r == self.spec_len(),
    {
        self.len
    }

    /// Whether an access of `size` bytes aligned to `align` at `offset` is
    /// allowed.
    pub fn allows(&self, offset: usize, size: usize, align: usize) -> (r: bool)
        ensures
            r == self.can_access(offset, size, align),
    {
        if align == 0 {
            return false;
        }
        let end = match offset.checked_add(size) {
            Some(end) => end,
            None => return false,
        };
        if end > self.len {
            return false;
        }
        let address = match self.base.checked_add(offset as u64) {
            Some(address) => address,
            None => return false,
        };
        address % (align as u64) == 0 && (address < 0x0000_8000_0000_0000 || address
            >= 0xffff_8000_0000_0000)
    }

    /// The address of an access of `size` bytes aligned to `align` at
    /// `offset`.
    pub fn address(&self, offset: usize, size: usize, align: usize) -> (r: u64)
        requires
            self.can_access(offset, size, align),
        ensures
            r == self.spec_base() + offset,
    {
        self.base + offset as u64
    }

    pub fn read_u8(&self, offset: usize) -> (r: MmioOp)
        requires
            self.can_access(offset, 1, 1),
        ensures
            r == (MmioOp::ReadU8 { address: (self.spec_base() + offset) as u64 }),
    {
        MmioOp::ReadU8 { address: self.address(offset, 1, 1) }
    }

    pub fn read_u16(&self, offset: usize) -> (r: MmioOp)
        requires
            self.can_access(offset, 2, 2),
        ensures
            r == (MmioOp::ReadU16 { address: (self.spec_base() + offset) as u64 }),
    {
        MmioOp::ReadU16 { address: self.address(offset, 2, 2) }
    }

    pub fn read_u32(&self, offset: usize) -> (r: MmioOp)
        requires
            self.can_access(offset, 4, 4),
        ensures
            r == (MmioOp::ReadU32 { address: (self.spec_base() + offset) as u64 }),
    {
        MmioOp::ReadU32 { address: self.address(offset, 4, 4) }
    }

    pub fn read_u64(&self, offset: usize) -> (r: MmioOp)
        requires
            self.can_access(offset, 8, 8),
        ensures
            r == (MmioOp::ReadU64 { address: (self.spec_base() + offset) as u64 }),
    {
        MmioOp::ReadU64 { address: self.address(offset, 8, 8) }
    }

    pub fn write_u8(&self, offset: usize, value: u8) -> (r: MmioOp)
        requires
            self.can_access(offset, 1, 1),
        ensures
            r == (MmioOp::WriteU8 { address: (self.spec_base() + offset) as u64, value }),
    {
        MmioOp::WriteU8 { address: self.address(offset, 1, 1), value }
    }

    pub fn write_u16(&self, offset: usize, value: u16) -> (r: MmioOp)
        requires
            self.can_access(offset, 2, 2),
        ensures
            r == (MmioOp::WriteU16 { address: (self.spec_base() + offset) as u64, value }),
    {
        MmioOp::WriteU16 { address: self.address(offset, 2, 2), value }
    }

    pub fn write_u32(&self, offset: usize, value: u32) -> (r: MmioOp)
        requires
            self.can_access(offset, 4, 4),
        ensures
            r == (MmioOp::WriteU32 { address: (self.spec_base() + offset) as u64, value }),
    {
        MmioOp::WriteU32 { address: self.address(offset, 4, 4), value }
    }

    pub fn write_u64(&self, offset: usize, value: u64) -> (r: MmioOp)
        requires
            self.can_access(offset, 8, 8),
        ensures
            r == (MmioOp::WriteU64 { address: (self.spec_base() + offset) as u64, value }),
    {
        MmioOp::WriteU64 { address: self.address(offset, 8, 8), value }
    }
}

} // verus!
