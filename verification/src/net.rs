//! Network addresses.
use vstd::prelude::*;

verus! {

/// A 48-bit Ethernet address, its six bytes in transmission order.
#[derive(Debug, Clone, Copy)]
pub struct MacAddress([u8; 6]);

impl View for MacAddress {
    type V = Seq<u8>;

    closed spec fn view(&self) -> Seq<u8> {
        self.0@
    }
}

impl MacAddress {
    /// The all-zero address.
    pub fn new() -> (r: Self)
        ensures
            r@ == seq![0u8, 0u8, 0u8, 0u8, 0u8, 0u8],
    {
        let octets: [u8; 6] = [0, 0, 0, 0, 0, 0];
        proof {
            assert(octets@ =~= seq![0u8, 0u8, 0u8, 0u8, 0u8, 0u8]);
        }
        Self(octets)
    }

    /// The address that a receive-address register pair holds: the low
    /// register's four bytes, least significant first, then the two low
    /// bytes of the high register.
    pub fn from_parts(high: u32, low: u32) -> (r: Self)
        ensures
            r@ == seq![
                (low % 0x100) as u8,
                (low / 0x100 % 0x100) as u8,
                (low / 0x1_0000 % 0x100) as u8,
                (low / 0x100_0000) as u8,
                (high % 0x100) as u8,
                (high / 0x100 % 0x100) as u8,
            ],
    {
        let octets: [u8; 6] = [
            (low & 0xff) as u8,
            ((low >> 8u32) & 0xff) as u8,
            ((low >> 16u32) & 0xff) as u8,
            (low >> 24u32) as u8,
            (high & 0xff) as u8,
            ((high >> 8u32) & 0xff) as u8,
        ];
        assert((low & 0xff) == low % 0x100 && ((low >> 8u32) & 0xff) == low / 0x100 % 0x100 && ((
        low >> 16u32) & 0xff) == low / 0x1_0000 % 0x100 && (low >> 24u32) == low / 0x100_0000)
            by (bit_vector);
        assert((high & 0xff) == high % 0x100 && ((high >> 8u32) & 0xff) == high / 0x100 % 0x100)
            by (bit_vector);
        proof {
            assert(octets@ =~= seq![
                (low % 0x100) as u8,
                (low / 0x100 % 0x100) as u8,
                (low / 0x1_0000 % 0x100) as u8,
                (low / 0x100_0000) as u8,
                (high % 0x100) as u8,
                (high / 0x100 % 0x100) as u8,
            ]);
        }
        Self(octets)
    }

    /// The six bytes.
    pub fn octets(&self) -> (r: [u8; 6])
        ensures
            r@ == self@,
    {
        self.0
    }
}

} // verus!
