//! Port addresses and descriptions of port writes.
use core::marker::PhantomData;
use vstd::prelude::*;

verus! {

/// Access marker: the port may only be read.
#[derive(Clone, Copy)]
pub struct ReadOnly;

/// Access marker: the port may only be written.
#[derive(Clone, Copy)]
pub struct WriteOnly;

/// Access marker: the port may be read and written.
#[derive(Clone, Copy)]
pub struct ReadWrite;

/// Access markers that allow reading.
pub trait CanRead {}

/// Access markers that allow writing.
pub trait CanWrite {}

impl CanRead for ReadOnly {}

impl CanRead for ReadWrite {}

impl CanWrite for WriteOnly {}

impl CanWrite for ReadWrite {}

/// An I/O port number, typed by the width of the values it carries and by
/// the accesses it allows.
#[derive(Copy)]
pub struct PortAddress<T, Access> {
    number: u16,
    marker: PhantomData<(T, Access)>,
}

impl<T, Access> PortAddress<T, Access> {
    /// The port number.
    pub closed spec fn spec_number(self) -> u16 {
        self.number
    }

    pub fn new(number: u16) -> (r: Self)
        ensures
            r.spec_number() == number,
    {
        Self { number, marker: PhantomData }
    }

    #[verifier::when_used_as_spec(spec_number)]
    pub fn number(self) -> (r: u16)
        ensures
            r == self.spec_number(),
    {
        self.number
    }
}

impl<T: Copy, Access: Copy> Clone for PortAddress<T, Access> {
    fn clone(&self) -> (r: Self)
        ensures
            r.spec_number() == self.spec_number(),
    {
        Self { number: self.number, marker: PhantomData }
    }
}

/// One access to an I/O port, to be carried out by the caller.
#[allow(inconsistent_fields)]
#[derive(Debug, Clone, Copy, PartialEq, Eq, Structural)]
pub enum PortOp {
    WriteU8 { port: u16, value: u8 },
    WriteU16 { port: u16, value: u16 },
    WriteU32 { port: u16, value: u32 },
    /// A read of an 8-bit port whose value is not needed: the read itself
    /// is what the device acts on.
    ReadU8 { port: u16 },
    /// A read of an 8-bit port, then a write back of the value read with
    /// the bits of `set` set and those of `clear` cleared.
    UpdateU8 { port: u16, set: u8, clear: u8 },
}

/// The write of a byte to an 8-bit port.
pub fn write_u8<A: CanWrite>(address: PortAddress<u8, A>, value: u8) -> (op: PortOp)
    ensures
        op == (PortOp::WriteU8 { port: address.spec_number(), value }),
{
    PortOp::WriteU8 { port: address.number(), value }
}

/// The write of a word to a 16-bit port.
pub fn write_u16<A: CanWrite>(address: PortAddress<u16, A>, value: u16) -> (op: PortOp)
    ensures
        op == (PortOp::WriteU16 { port: address.spec_number(), value }),
{
    PortOp::WriteU16 { port: address.number(), value }
}

/// The write of a double word to a 32-bit port.
pub fn write_u32<A: CanWrite>(address: PortAddress<u32, A>, value: u32) -> (op: PortOp)
    ensures
        op == (PortOp::WriteU32 { port: address.spec_number(), value }),
{
    PortOp::WriteU32 { port: address.number(), value }
}

} // verus!
