//! PCI configuration space: register decoding, configuration access
//! encoding, base address registers and bus enumeration.
//!
//! Reads of the configuration space are modelled by [`ConfigSpace`], the 64
//! double words of a function's configuration header as read from the
//! hardware; writes are returned as the [`PortOp`]s that carry them out.
use crate::io::PortOp;
use vstd::arithmetic::div_mod::lemma_fundamental_div_mod_converse;
use vstd::prelude::*;

verus! {

/// The configuration address port.
pub const ADDRESS_PORT: u16 = 0xCF8;

/// The configuration data port.
pub const DATA_PORT: u16 = 0xCFC;

/// The enable bit of a configuration address.
pub const CONFIG_ENABLE: u32 = 0x8000_0000;

/// The vendor id that reads back from an absent function.
pub const NO_VENDOR: u16 = 0xFFFF;

/// The number of double words in a configuration header.
pub const CONFIG_SPACE_DWORDS: usize = 64;

/// The layout of a function's configuration header.
#[derive(Debug, Clone, Copy, PartialEq, Eq, Structural)]
pub enum HeaderKind {
    Device,
    PciToPciBridge,
    CardBusBridge,
    Unknown(u8),
}

/// The header type register.
#[derive(Debug, Clone, Copy, PartialEq, Eq, Structural)]
pub struct HeaderType {
    raw: u8,
}

impl HeaderType {
    pub closed spec fn spec_raw(self) -> u8 {
        self.raw
    }

    pub fn from_raw(raw: u8) -> (r: Self)
        ensures
            r.spec_raw() == raw,
    {
        Self { raw }
    }

    #[verifier::when_used_as_spec(spec_raw)]
    pub fn raw(self) -> (r: u8)
        ensures
            r == self.spec_raw(),
    {
        self.raw
    }

    /// Whether the device has functions other than function 0 (bit 7).
    pub fn is_multi_function(self) -> (r: bool)
        ensures
            r == (self.spec_raw() & 0x80 != 0),
    {
        self.raw & 0x80 != 0
    }

    /// The header layout, from bits 0 to 6.
    pub fn kind(self) -> (r: HeaderKind)
        ensures
            r == header_kind_of(self.spec_raw() & 0x7F),
    {
        match self.raw & 0x7F {
            0x00 => HeaderKind::Device,
            0x01 => HeaderKind::PciToPciBridge,
            0x02 => HeaderKind::CardBusBridge,
            value => HeaderKind::Unknown(value),
        }
    }
}

/// The header layout that a layout code names.
pub open spec fn header_kind_of(code: u8) -> HeaderKind {
    if code == 0 {
        HeaderKind::Device
    } else if code == 1 {
        HeaderKind::PciToPciBridge
    } else if code == 2 {
        HeaderKind::CardBusBridge
    } else {
        HeaderKind::Unknown(code)
    }
}

/// The class code registers.
#[derive(Debug, Clone, Copy, PartialEq, Eq, Structural)]
pub struct Class {
    pub class: u8,
    pub subclass: u8,
    pub programming_interface: u8,
}

impl Class {
    pub fn new(class: u8, subclass: u8, programming_interface: u8) -> (r: Self)
        ensures
            r == (Class { class, subclass, programming_interface }),
    {
        Self { class, subclass, programming_interface }
    }

    pub fn class(self) -> (r: u8)
        ensures
            r == self.class,
    {
        self.class
    }

    pub fn subclass(self) -> (r: u8)
        ensures
            r == self.subclass,
    {
        self.subclass
    }

    pub fn programming_interface(self) -> (r: u8)
        ensures
            r == self.programming_interface,
    {
        self.programming_interface
    }
}

/// The interrupt pin register.
#[derive(Debug, Clone, Copy, PartialEq, Eq, Structural)]
pub enum InterruptPin {
    NoPin,
    IntA,
    IntB,
    IntC,
    IntD,
    Unknown(u8),
}

/// The interrupt pin that a raw register value names.
pub open spec fn interrupt_pin_of(raw: u8) -> InterruptPin {
    if raw == 0 {
        InterruptPin::NoPin
    } else if raw == 1 {
        InterruptPin::IntA
    } else if raw == 2 {
        InterruptPin::IntB
    } else if raw == 3 {
        InterruptPin::IntC
    } else if raw == 4 {
        InterruptPin::IntD
    } else {
        InterruptPin::Unknown(raw)
    }
}

impl InterruptPin {
    pub fn from_raw(raw: u8) -> (r: Self)
        ensures
            r == interrupt_pin_of(raw),
    {
        match raw {
            0 => Self::NoPin,
            1 => Self::IntA,
            2 => Self::IntB,
            3 => Self::IntC,
            4 => Self::IntD,
            value => Self::Unknown(value),
        }
    }
}

/// The interrupt line value that means "no line".
pub const NO_LINE: u8 = 0xFF;

/// The interrupt line and pin of a function.
#[derive(Debug, Clone, Copy, PartialEq, Eq, Structural)]
pub struct Interrupt {
    line: Option<u8>,
    pin: InterruptPin,
}

impl Interrupt {
    pub closed spec fn spec_line(self) -> Option<u8> {
        self.line
    }

    pub closed spec fn spec_pin(self) -> InterruptPin {
        self.pin
    }

    /// A line of 0xFF is the same as no line.
    pub fn new(line: Option<u8>, pin: InterruptPin) -> (r: Self)
        ensures
            r.spec_line() == (match line {
                Some(l) => if l == NO_LINE {
                    None::<u8>
                } else {
                    Some(l)
                },
                None => None::<u8>,
            }),
            r.spec_pin() == pin,
    {
        let line = match line {
            Some(l) => if l == NO_LINE {
                None
            } else {
                Some(l)
            },
            None => None,
        };
        Self { line, pin }
    }

    pub fn from_raw(line: u8, pin: u8) -> (r: Self)
        ensures
            r.spec_line() == (if line == NO_LINE {
                None::<u8>
            } else {
                Some(line)
            }),
            r.spec_pin() == interrupt_pin_of(pin),
    {
        Self::new(Some(line), InterruptPin::from_raw(pin))
    }

    #[verifier::when_used_as_spec(spec_line)]
    pub fn line(self) -> (r: Option<u8>)
        ensures
            r == self.spec_line(),
    {
        self.line
    }

    #[verifier::when_used_as_spec(spec_pin)]
    pub fn pin(self) -> (r: InterruptPin)
        ensures
            r == self.spec_pin(),
    {
        self.pin
    }

    /// The register value of the line: 0xFF when there is none.
    pub fn raw_line(self) -> (r: u8)
        ensures
            r == (match self.spec_line() {
                Some(l) => l,
                None => NO_LINE,
            }),
    {
        match self.line {
            Some(line) => line,
            None => NO_LINE,
        }
    }
}

/// The address of one function on the bus: bus, device (below 32) and
/// function (below 8).
#[derive(Debug, Clone, Copy, PartialEq, Eq, Structural)]
pub struct FunctionAddress {
    bus: u8,
    device: u8,
    function: u8,
}

/// The position of a function in enumeration order.
pub open spec fn function_key(bus: u8, device: u8, function: u8) -> int {
    bus as int * 256 + device as int * 8 + function as int
}

impl FunctionAddress {
    #[verifier::type_invariant]
    closed spec fn inv(self) -> bool {
        self.device < 32 && self.function < 8
    }

    pub closed spec fn spec_bus(self) -> u8 {
        self.bus
    }

    pub closed spec fn spec_device(self) -> u8 {
        self.device
    }

    pub closed spec fn spec_function(self) -> u8 {
        self.function
    }

    /// The position of this function in enumeration order.
    pub open spec fn key(self) -> int {
        function_key(self.spec_bus(), self.spec_device(), self.spec_function())
    }

    /// Device and function numbers in range, as every value of this type has.
    pub open spec fn valid(self) -> bool {
        self.spec_device() < 32 && self.spec_function() < 8
    }

    pub fn new(bus: u8, device: u8, function: u8) -> (r: Self)
        requires
            device < 32,
            function < 8,
        ensures
            r.valid(),
            r.spec_bus() == bus,
            r.spec_device() == device,
            r.spec_function() == function,
    {
        Self { bus, device, function }
    }

    #[verifier::when_used_as_spec(spec_bus)]
    pub fn bus(self) -> (r: u8)
        ensures
            r == self.spec_bus(),
    {
        self.bus
    }

    #[verifier::when_used_as_spec(spec_device)]
    pub fn device(self) -> (r: u8)
        ensures
            r == self.spec_device(),
            r < 32,
    {
        proof {
            use_type_invariant(self);
        }
        self.device
    }

    #[verifier::when_used_as_spec(spec_function)]
    pub fn function(self) -> (r: u8)
        ensures
            r == self.spec_function(),
            r < 8,
    {
        proof {
            use_type_invariant(self);
        }
        self.function
    }

    /// The value written to the address port to reach `register` of this
    /// function.
    pub open spec fn spec_config_address(self, register: u8) -> u32 {
        CONFIG_ENABLE | ((self.spec_bus() as u32) << 16u32) | ((self.spec_device() as u32)
            << 11u32) | ((self.spec_function() as u32) << 8u32) | (register as u32 & 0xFCu32)
    }

    #[verifier::when_used_as_spec(spec_config_address)]
    pub fn config_address(self, register: u8) -> (r: u32)
        ensures
            r == self.spec_config_address(register),
    {
        CONFIG_ENABLE | ((self.bus as u32) << 16u32) | ((self.device as u32) << 11u32) | ((
        self.function as u32) << 8u32) | (register as u32 & 0xFCu32)
    }
}

/// Configuration addresses tell functions and double words apart: two
/// accesses reach the same configuration address exactly when they name the
/// same function and the same double word.
pub proof fn lemma_config_address_injective(
    a: FunctionAddress,
    b: FunctionAddress,
    register_a: u8,
    register_b: u8,
)
    requires
        a.valid(),
        b.valid(),
    ensures
        a.spec_config_address(register_a) == b.spec_config_address(register_b) <==> (
        a.spec_bus() == b.spec_bus() && a.spec_device() == b.spec_device()
            && a.spec_function() == b.spec_function() && register_a / 4 == register_b / 4),
{
    let (ba, da, fa, ra) = (a.spec_bus(), a.spec_device(), a.spec_function(), register_a);
    let (bb, db, fb, rb) = (b.spec_bus(), b.spec_device(), b.spec_function(), register_b);
    assert(((0x8000_0000u32 | ((ba as u32) << 16u32) | ((da as u32) << 11u32) | ((fa as u32)
        << 8u32) | (ra as u32 & 0xFCu32)) == (0x8000_0000u32 | ((bb as u32) << 16u32) | ((
    db as u32) << 11u32) | ((fb as u32) << 8u32) | (rb as u32 & 0xFCu32))) <==> (ba == bb && da
        == db && fa == fb && ra / 4 == rb / 4)) by (bit_vector)
        requires
            da < 32,
            fa < 8,
            db < 32,
            fb < 8,
    ;
}

/// The configuration header of one function, as 64 double words read from
/// the configuration data port.
pub struct ConfigSpace {
    dwords: Vec<u32>,
}

impl View for ConfigSpace {
    type V = Seq<u32>;

    closed spec fn view(&self) -> Seq<u32> {
        self.dwords@
    }
}

impl ConfigSpace {
    #[verifier::type_invariant]
    closed spec fn inv(self) -> bool {
        self.dwords.len() == CONFIG_SPACE_DWORDS
    }

    /// Double word `i` holds the bytes at registers `4 * i` to `4 * i + 3`.
    pub fn new(dwords: Vec<u32>) -> (r: Self)
        requires
            dwords.len() == CONFIG_SPACE_DWORDS,
        ensures
            r@ == dwords@,
    {
        Self { dwords }
    }

    fn dword(&self, register: u8) -> (r: u32)
        ensures
            r == dword_at(self@, register),
    {
        proof {
            use_type_invariant(self);
        }
        self.dwords[(register / 4) as usize]
    }
    /// The configuration space after a word write of `value` at the even
    /// `register` through the dword window: its dword becomes the merged
    /// dword, so the word reads back as `value` and the other half of that
    /// dword keeps its bytes; no other dword changes.
    pub fn store_u16(&mut self, register: u8, value: u16)
        requires
            register % 2 == 0,
        ensures
            final(self)@ == old(self)@.update(
                register as int / 4,
                merged_u16(dword_at(old(self)@, register), register, value),
            ),
            config_u16(final(self)@, register) == value,
            forall|r: u8|
                r as int / 4 != register as int / 4 ==> #[trigger] dword_at(final(self)@, r) == dword_at(
                    old(self)@,
                    r,
                ),
    {
        proof {
            use_type_invariant(&*self);
        }
        let index = (register / 4) as usize;
        let merged = merge_u16(self.dwords[index], register, value);
        let mut dwords = self.dwords.clone();
        proof {
            assert(dwords@ =~= self.dwords@);
        }
        dwords.set(index, merged);
        self.dwords = dwords;
        proof {
            lemma_merged_u16(dword_at(old(self)@, register), register, value);
            assert(lane_shift(register) == 8 * (register as u32 % 4));
        }
    }

    /// The configuration space after a byte write of `value` at `register`
    /// through the dword window: its dword becomes the merged dword, so the
    /// byte reads back as `value` and the other three keep theirs; no other
    /// dword changes.
    pub fn store_u8(&mut self, register: u8, value: u8)
        ensures
            final(self)@ == old(self)@.update(
                register as int / 4,
                merged_u8(dword_at(old(self)@, register), register, value),
            ),
            config_u8(final(self)@, register) == value,
            forall|r: u8|
                r as int / 4 != register as int / 4 ==> #[trigger] dword_at(final(self)@, r) == dword_at(
                    old(self)@,
                    r,
                ),
    {
        proof {
            use_type_invariant(&*self);
        }
        let index = (register / 4) as usize;
        let merged = merge_u8(self.dwords[index], register, value);
        let mut dwords = self.dwords.clone();
        proof {
            assert(dwords@ =~= self.dwords@);
        }
        dwords.set(index, merged);
        self.dwords = dwords;
        proof {
            lemma_merged_u8(dword_at(old(self)@, register), register, value);
            assert(lane_shift(register) == 8 * (register as u32 % 4));
        }
    }
}

/// The double word that holds `register`.
pub open spec fn dword_at(space: Seq<u32>, register: u8) -> u32 {
    space[register as int / 4]
}

/// The byte at `register`.
pub open spec fn config_u8(space: Seq<u32>, register: u8) -> u8 {
    (dword_at(space, register) >> (8 * (register as u32 % 4))) as u8
}

/// The word at `register` (an even register).
pub open spec fn config_u16(space: Seq<u32>, register: u8) -> u16 {
    (dword_at(space, register) >> (8 * (register as u32 % 4))) as u16
}

/// Reads the byte at `register`.
pub fn read_u8(config: &ConfigSpace, register: u8) -> (r: u8)
    ensures
        r == config_u8(config@, register),
{
    let value = config.dword(register);
    let shift = 8 * ((register % 4) as u32);
    (value >> shift) as u8
}

/// Reads the word at an even `register`.
pub fn read_u16(config: &ConfigSpace, register: u8) -> (r: u16)
    requires
        register % 2 == 0,
    ensures
        r == config_u16(config@, register),
{
    let value = config.dword(register);
    let shift = 8 * ((register % 4) as u32);
    (value >> shift) as u16
}

/// Reads the double word at a `register` that is a multiple of 4.
pub fn read_u32(config: &ConfigSpace, register: u8) -> (r: u32)
    requires
        register % 4 == 0,
    ensures
        r == dword_at(config@, register),
{
    config.dword(register)
}

/// The port writes that store a byte at `register` of `function`.
pub fn write_u8(function: FunctionAddress, register: u8, value: u8) -> (ops: Vec<PortOp>)
    ensures
        ops@ == seq![
            PortOp::WriteU32 { port: ADDRESS_PORT, value: function.spec_config_address(register) },
            PortOp::WriteU8 { port: (DATA_PORT + register % 4) as u16, value },
        ],
{
    let mut ops = Vec::new();
    ops.push(PortOp::WriteU32 { port: ADDRESS_PORT, value: function.config_address(register) });
    ops.push(PortOp::WriteU8 { port: DATA_PORT + (register % 4) as u16, value });
    ops
}

/// The port writes that store a word at an even `register` of `function`.
pub fn write_u16(function: FunctionAddress, register: u8, value: u16) -> (ops: Vec<PortOp>)
    requires
        register % 2 == 0,
    ensures
        ops@ == seq![
            PortOp::WriteU32 { port: ADDRESS_PORT, value: function.spec_config_address(register) },
            PortOp::WriteU16 { port: (DATA_PORT + register % 4) as u16, value },
        ],
{
    let mut ops = Vec::new();
    ops.push(PortOp::WriteU32 { port: ADDRESS_PORT, value: function.config_address(register) });
    ops.push(PortOp::WriteU16 { port: DATA_PORT + (register % 4) as u16, value });
    ops
}

/// The port writes that store a double word at a `register` that is a
/// multiple of 4.
pub fn write_u32(function: FunctionAddress, register: u8, value: u32) -> (ops: Vec<PortOp>)
    requires
        register % 4 == 0,
    ensures
        ops@ == seq![
            PortOp::WriteU32 { port: ADDRESS_PORT, value: function.spec_config_address(register) },
            PortOp::WriteU32 { port: DATA_PORT, value },
        ],
{
    let mut ops = Vec::new();
    ops.push(PortOp::WriteU32 { port: ADDRESS_PORT, value: function.config_address(register) });
    ops.push(PortOp::WriteU32 { port: DATA_PORT, value });
    ops
}

/// Byte `lane` (0 to 3, lowest first) of a configuration dword.
pub open spec fn dword_byte(dword: u32, lane: u32) -> u8 {
    (dword >> (8 * lane)) as u8
}

/// The shift of the byte lane of `register` within its dword.
pub open spec fn lane_shift(register: u8) -> u32 {
    (8 * (register as u32 % 4)) as u32
}

/// The dword that writing byte `value` at `register` leaves, when the
/// register's dword held `dword` before: the byte lane of `register`
/// replaced, the other three kept.
pub open spec fn merged_u8(dword: u32, register: u8, value: u8) -> u32 {
    (dword & !(0xFFu32 << lane_shift(register))) | ((value as u32) << lane_shift(register))
}

/// The dword that writing word `value` at the even `register` leaves, when
/// the register's dword held `dword` before: the two byte lanes of
/// `register` replaced, the other two kept.
pub open spec fn merged_u16(dword: u32, register: u8, value: u16) -> u32 {
    (dword & !(0xFFFFu32 << lane_shift(register))) | ((value as u32) << lane_shift(register))
}

/// What merging a byte does, lane by lane: the byte reads back from its
/// register, and the other three lanes keep their bytes.
pub proof fn lemma_merged_u8(dword: u32, register: u8, value: u8)
    ensures
        (merged_u8(dword, register, value) >> lane_shift(register)) as u8 == value,
        forall|lane: u32|
            lane < 4 ==> #[trigger] dword_byte(merged_u8(dword, register, value), lane) == if lane
                == (register % 4) as u32 {
                value
            } else {
                dword_byte(dword, lane)
            },
{
    let l = (register % 4) as u32;
    let shift = lane_shift(register);
    let r = merged_u8(dword, register, value);
    assert(shift == l * 8);
    assert((r >> shift) as u8 == value && forall|lane: u32|
        lane < 4 ==> #[trigger] dword_byte(r, lane) == if lane == l {
            value
        } else {
            dword_byte(dword, lane)
        }) by (bit_vector)
        requires
            l < 4,
            shift == l * 8,
            r == (dword & !(0xFFu32 << shift)) | ((value as u32) << shift),
    ;
}

/// What merging a word does, lane by lane: the word reads back from its
/// register, and the other two lanes keep their bytes.
pub proof fn lemma_merged_u16(dword: u32, register: u8, value: u16)
    requires
        register % 2 == 0,
    ensures
        (merged_u16(dword, register, value) >> lane_shift(register)) as u16 == value,
        forall|lane: u32|
            lane < 4 ==> #[trigger] dword_byte(merged_u16(dword, register, value), lane) == if lane
                == (register % 4) as u32 {
                value as u8
            } else if lane == (register % 4) as u32 + 1 {
                (value >> 8u16) as u8
            } else {
                dword_byte(dword, lane)
            },
{
    let l = (register % 4) as u32;
    let shift = lane_shift(register);
    let r = merged_u16(dword, register, value);
    assert(l == 0 || l == 2);
    assert(shift == l * 8);
    assert((r >> shift) as u16 == value && forall|lane: u32|
        lane < 4 ==> #[trigger] dword_byte(r, lane) == if lane == l {
            value as u8
        } else if lane == l + 1 {
            (value >> 8u16) as u8
        } else {
            dword_byte(dword, lane)
        }) by (bit_vector)
        requires
            l == 0 || l == 2,
            shift == l * 8,
            r == (dword & !(0xFFFFu32 << shift)) | ((value as u32) << shift),
    ;
}

/// The dword that writing byte `value` at `register` leaves, when the
/// register's dword held `dword` before. Writes through the dword window
/// read the dword, merge, and write this back.
pub fn merge_u8(dword: u32, register: u8, value: u8) -> (r: u32)
    ensures
        r == merged_u8(dword, register, value),
{
    let shift: u32 = (register % 4) as u32 * 8;
    (dword & !(0xFFu32 << shift)) | ((value as u32) << shift)
}

/// The dword that writing word `value` at the even `register` leaves, when
/// the register's dword held `dword` before.
pub fn merge_u16(dword: u32, register: u8, value: u16) -> (r: u32)
    requires
        register % 2 == 0,
    ensures
        r == merged_u16(dword, register, value),
{
    let shift: u32 = (register % 4) as u32 * 8;
    (dword & !(0xFFFFu32 << shift)) | ((value as u32) << shift)
}

/// The port writes that store byte `value` at `register` of `function`
/// through the dword window, when reading that dword gave `dword`: the
/// address, then the merged dword.
pub fn write_u8_merged(function: FunctionAddress, register: u8, value: u8, dword: u32) -> (ops: Vec<PortOp>)
    ensures
        ops@ == seq![
            PortOp::WriteU32 { port: ADDRESS_PORT, value: function.spec_config_address(register) },
            PortOp::WriteU32 { port: DATA_PORT, value: merged_u8(dword, register, value) },
        ],
{
    let mut ops = Vec::new();
    ops.push(PortOp::WriteU32 { port: ADDRESS_PORT, value: function.config_address(register) });
    ops.push(PortOp::WriteU32 { port: DATA_PORT, value: merge_u8(dword, register, value) });
    ops
}

/// The port writes that store word `value` at the even `register` of
/// `function` through the dword window, when reading that dword gave
/// `dword`: the address, then the merged dword.
pub fn write_u16_merged(function: FunctionAddress, register: u8, value: u16, dword: u32) -> (ops: Vec<PortOp>)
    requires
        register % 2 == 0,
    ensures
        ops@ == seq![
            PortOp::WriteU32 { port: ADDRESS_PORT, value: function.spec_config_address(register) },
            PortOp::WriteU32 { port: DATA_PORT, value: merged_u16(dword, register, value) },
        ],
{
    let mut ops = Vec::new();
    ops.push(PortOp::WriteU32 { port: ADDRESS_PORT, value: function.config_address(register) });
    ops.push(PortOp::WriteU32 { port: DATA_PORT, value: merge_u16(dword, register, value) });
    ops
}

/// The header type register (offset 0x0E).
pub fn get_header_type(config: &ConfigSpace) -> (r: HeaderType)
    ensures
        r.spec_raw() == config_u8(config@, 0x0E),
{
    HeaderType::from_raw(read_u8(config, 0x0E))
}

/// The class code registers (offsets 0x0B, 0x0A and 0x09).
pub fn get_class(config: &ConfigSpace) -> (r: Class)
    ensures
        r == (Class {
            class: config_u8(config@, 0x0B),
            subclass: config_u8(config@, 0x0A),
            programming_interface: config_u8(config@, 0x09),
        }),
{
    Class::new(read_u8(config, 0x0B), read_u8(config, 0x0A), read_u8(config, 0x09))
}

/// The interrupt line and pin registers (offsets 0x3C and 0x3D).
pub fn get_interrupt(config: &ConfigSpace) -> (r: Interrupt)
    ensures
        r.spec_line() == (if config_u8(config@, 0x3C) == NO_LINE {
            None::<u8>
        } else {
            Some(config_u8(config@, 0x3C))
        }),
        r.spec_pin() == interrupt_pin_of(config_u8(config@, 0x3D)),
{
    Interrupt::from_raw(read_u8(config, 0x3C), read_u8(config, 0x3D))
}

/// The vendor id (offset 0x00), or `None` for an absent function.
pub fn get_vendor_id(config: &ConfigSpace) -> (r: Option<u16>)
    ensures
        r == (if config_u16(config@, 0x00) == NO_VENDOR {
            None::<u16>
        } else {
            Some(config_u16(config@, 0x00))
        }),
{
    let vendor_id = read_u16(config, 0x00);
    if vendor_id == NO_VENDOR {
        None
    } else {
        Some(vendor_id)
    }
}

/// The device id (offset 0x02).
pub fn get_device_id(config: &ConfigSpace) -> (r: u16)
    ensures
        r == config_u16(config@, 0x02),
{
    read_u16(config, 0x02)
}

/// The command register.
#[derive(Debug, Clone, Copy, PartialEq, Eq, Structural)]
pub struct CommandRegister(u16);

impl CommandRegister {
    pub closed spec fn spec_raw(self) -> u16 {
        self.0
    }

    /// Sets bit 0.
    pub fn with_io_space_enabled(self) -> (r: Self)
        ensures
            r.spec_raw() == self.spec_raw() | 1,
    {
        Self(self.0 | 1)
    }

    /// Sets bit 1.
    pub fn with_memory_space_enabled(self) -> (r: Self)
        ensures
            r.spec_raw() == self.spec_raw() | 2,
    {
        Self(self.0 | 2)
    }

    /// Sets bit 2.
    pub fn with_bus_master_enabled(self) -> (r: Self)
        ensures
            r.spec_raw() == self.spec_raw() | 4,
    {
        Self(self.0 | 4)
    }

    pub fn from_raw(raw: u16) -> (r: Self)
        ensures
            r.spec_raw() == raw,
    {
        Self(raw)
    }

    #[verifier::when_used_as_spec(spec_raw)]
    pub fn raw(self) -> (r: u16)
        ensures
            r == self.spec_raw(),
    {
        self.0
    }

    pub fn io_space_enabled(self) -> (r: bool)
        ensures
            r == (self.spec_raw() & 1 != 0),
    {
        self.0 & 1 != 0
    }

    pub fn memory_space_enabled(self) -> (r: bool)
        ensures
            r == (self.spec_raw() & 2 != 0),
    {
        self.0 & 2 != 0
    }

    pub fn bus_master_enabled(self) -> (r: bool)
        ensures
            r == (self.spec_raw() & 4 != 0),
    {
        self.0 & 4 != 0
    }
}

/// Enabling a feature of the command register sets that feature and keeps
/// the others.
pub proof fn lemma_command_enable_keeps_others(raw: u16)
    ensures
        (raw | 1) & 1 != 0,
        (raw | 1) & 2 == raw & 2,
        (raw | 1) & 4 == raw & 4,
        (raw | 2) & 2 != 0,
        (raw | 2) & 1 == raw & 1,
        (raw | 2) & 4 == raw & 4,
        (raw | 4) & 4 != 0,
        (raw | 4) & 1 == raw & 1,
        (raw | 4) & 2 == raw & 2,
{
    assert((raw | 1) & 1 != 0 && (raw | 1) & 2 == raw & 2 && (raw | 1) & 4 == raw & 4)
        by (bit_vector);
    assert((raw | 2) & 2 != 0 && (raw | 2) & 1 == raw & 1 && (raw | 2) & 4 == raw & 4)
        by (bit_vector);
    assert((raw | 4) & 4 != 0 && (raw | 4) & 1 == raw & 1 && (raw | 4) & 2 == raw & 2)
        by (bit_vector);
}

/// The command register (offset 0x04).
pub fn get_command(config: &ConfigSpace) -> (r: CommandRegister)
    ensures
        r.spec_raw() == config_u16(config@, 0x04),
{
    CommandRegister::from_raw(read_u16(config, 0x04))
}

/// The port writes that store `command` in the command register.
pub fn set_command(function: FunctionAddress, command: CommandRegister) -> (ops: Vec<PortOp>)
    ensures
        ops@ == seq![
            PortOp::WriteU32 { port: ADDRESS_PORT, value: function.spec_config_address(0x04) },
            PortOp::WriteU16 { port: DATA_PORT, value: command.spec_raw() },
        ],
{
    write_u16(function, 0x04, command.raw())
}

/// One of the six base address registers.
#[derive(Debug, Clone, Copy, PartialEq, Eq, Structural)]
pub enum BarIndex {
    Bar0,
    Bar1,
    Bar2,
    Bar3,
    Bar4,
    Bar5,
}

/// The number of a base address register.
pub open spec fn bar_number(index: BarIndex) -> u8 {
    match index {
        BarIndex::Bar0 => 0,
        BarIndex::Bar1 => 1,
        BarIndex::Bar2 => 2,
        BarIndex::Bar3 => 3,
        BarIndex::Bar4 => 4,
        BarIndex::Bar5 => 5,
    }
}

impl BarIndex {
    /// The register offset: 0x10 plus four times the register number.
    pub fn register_offset(self) -> (r: u8)
        ensures
            r == 0x10 + 4 * bar_number(self),
    {
        match self {
            BarIndex::Bar0 => 0x10,
            BarIndex::Bar1 => 0x14,
            BarIndex::Bar2 => 0x18,
            BarIndex::Bar3 => 0x1C,
            BarIndex::Bar4 => 0x20,
            BarIndex::Bar5 => 0x24,
        }
    }
}

/// A decoded base address register.
#[derive(Debug, Clone, Copy, PartialEq, Eq, Structural)]
pub enum Bar {
    Io(IoBar),
    Memory(MemoryBar),
}

/// An I/O space base address.
#[derive(Debug, Clone, Copy, PartialEq, Eq, Structural)]
pub struct IoBar {
    pub base: u16,
}

impl IoBar {
    pub fn base(self) -> (r: u16)
        ensures
            r == self.base,
    {
        self.base
    }
}

/// The width of a memory base address.
#[derive(Debug, Clone, Copy, PartialEq, Eq, Structural)]
pub enum MemoryBarWidth {
    Bits32,
    Bits64,
}

/// A memory space base address: a physical address below 2^52.
#[derive(Debug, Clone, Copy, PartialEq, Eq, Structural)]
pub struct MemoryBar {
    pub address: u64,
    pub width: MemoryBarWidth,
    pub prefetchable: bool,
}

impl MemoryBar {
    pub fn address(self) -> (r: u64)
        ensures
            r == self.address,
    {
        self.address
    }

    pub fn width(self) -> (r: MemoryBarWidth)
        ensures
            r == self.width,
    {
        self.width
    }

    pub fn is_prefetchable(self) -> (r: bool)
        ensures
            r == self.prefetchable,
    {
        self.prefetchable
    }
}

/// The largest physical address width: addresses are below 2^52.
pub const PHYSICAL_ADDRESS_LIMIT: u64 = 0x10_0000_0000_0000;

/// The decoding of base address register `n` of a configuration header.
pub open spec fn bar_spec(space: Seq<u32>, n: u8) -> Option<Bar> {
    let low = space[4 + n as int];
    if low & 1 != 0 {
        let address = low & 0xFFFF_FFFCu32;
        if address == 0 || address > 0xFFFF {
            None
        } else {
            Some(Bar::Io(IoBar { base: address as u16 }))
        }
    } else {
        let low_address = (low & 0xFFFF_FFF0u32) as u64;
        let kind = low & 6;
        if kind != 0 && kind != 4 {
            None
        } else if kind == 4 && n == 5 {
            None
        } else {
            let address = if kind == 0 {
                low_address
            } else {
                ((space[5 + n as int] as u64) << 32u64) | low_address
            };
            if address == 0 || address >= PHYSICAL_ADDRESS_LIMIT {
                None
            } else {
                Some(
                    Bar::Memory(
                        MemoryBar {
                            address,
                            width: if kind == 0 {
                                MemoryBarWidth::Bits32
                            } else {
                                MemoryBarWidth::Bits64
                            },
                            prefetchable: low & 8 != 0,
                        },
                    ),
                )
            }
        }
    }
}

/// Decodes base address register `index`; a 64-bit memory base takes its
/// upper half from the next register.
pub fn get_bar(config: &ConfigSpace, index: BarIndex) -> (r: Option<Bar>)
    ensures
        r == bar_spec(config@, bar_number(index)),
{
    proof {
        use_type_invariant(config);
    }
    let offset = index.register_offset();
    let low = read_u32(config, offset);
    if low & 1 != 0 {
        let address = low & 0xFFFF_FFFCu32;
        if address == 0 {
            return None;
        }
        if address > 0xFFFF {
            return None;
        }
        return Some(Bar::Io(IoBar { base: address as u16 }));
    }
    let low_address = (low & 0xFFFF_FFF0u32) as u64;
    let kind = low & 6;
    let address: u64;
    let width: MemoryBarWidth;
    if kind == 0 {
        address = low_address;
        width = MemoryBarWidth::Bits32;
    } else if kind == 4 {
        if index == BarIndex::Bar5 {
            return None;
        }
        let high = read_u32(config, offset + 4) as u64;
        address = (high << 32u64) | low_address;
        width = MemoryBarWidth::Bits64;
    } else {
        return None;
    }
    if address == 0 {
        return None;
    }
    if address >= PHYSICAL_ADDRESS_LIMIT {
        return None;
    }
    Some(Bar::Memory(MemoryBar { address, width, prefetchable: low & 8 != 0 }))
}

/// The first I/O base address register, scanning from register 0 and
/// skipping the upper half of each 64-bit memory base.
pub open spec fn find_io_bar_from(space: Seq<u32>, n: u8, skip: bool) -> Option<IoBar>
    decreases 6 - n,
{
    if n >= 6 {
        None
    } else if skip {
        find_io_bar_from(space, (n + 1) as u8, false)
    } else {
        match bar_spec(space, n) {
            Some(Bar::Io(bar)) => Some(bar),
            Some(Bar::Memory(bar)) => find_io_bar_from(
                space,
                (n + 1) as u8,
                bar.width == MemoryBarWidth::Bits64,
            ),
            None => find_io_bar_from(space, (n + 1) as u8, false),
        }
    }
}

fn bar_index(n: u8) -> (r: BarIndex)
    requires
        n < 6,
    ensures
        bar_number(r) == n,
{
    match n {
        0 => BarIndex::Bar0,
        1 => BarIndex::Bar1,
        2 => BarIndex::Bar2,
        3 => BarIndex::Bar3,
        4 => BarIndex::Bar4,
        _ => BarIndex::Bar5,
    }
}

/// The first I/O base address register of the function.
pub fn find_io_bar(config: &ConfigSpace) -> (r: Option<IoBar>)
    ensures
        r == find_io_bar_from(config@, 0, false),
{
    let mut skip_next = false;
    let mut n: u8 = 0;
    while n < 6
        invariant
            n <= 6,
            find_io_bar_from(config@, n, skip_next) == find_io_bar_from(config@, 0, false),
        decreases 6 - n,
    {
        if skip_next {
            skip_next = false;
        } else {
            match get_bar(config, bar_index(n)) {
                Some(Bar::Io(bar)) => return Some(bar),
                Some(Bar::Memory(bar)) => {
                    skip_next = bar.width == MemoryBarWidth::Bits64;
                },
                None => {},
            }
        }
        n = n + 1;
    }
    None
}

/// The (bus, device, function) triple of an optional function address.
pub open spec fn position(f: Option<FunctionAddress>) -> Option<(u8, u8, u8)> {
    match f {
        Some(a) => Some((a.spec_bus(), a.spec_device(), a.spec_function())),
        None => None,
    }
}

/// Function 0 of the device after `(bus, device)`, if there is one.
pub open spec fn next_device_position(bus: u8, device: u8) -> Option<(u8, u8, u8)> {
    if device + 1 < 32 {
        Some((bus, (device + 1) as u8, 0u8))
    } else if bus < 255 {
        Some(((bus + 1) as u8, 0u8, 0u8))
    } else {
        None
    }
}

/// The enumeration order of a position: bus, then device, then function.
pub open spec fn position_key(p: (u8, u8, u8)) -> int {
    function_key(p.0, p.1, p.2)
}

/// The number of function positions: 256 buses of 32 devices of 8
/// functions, keyed in enumeration order.
pub const FUNCTION_COUNT: u32 = 65536;

/// Whether the walk yields the function with key `k`, when `present(key)`
/// says whether a function answers at a key and `multi(key)` whether the
/// function 0 there reports several functions: it answers, and it is
/// function 0 or function 0 of its device answers and reports several
/// functions.
pub open spec fn walk_finds(k: int, present: spec_fn(int) -> bool, multi: spec_fn(int) -> bool) -> bool {
    &&& present(k)
    &&& (k % 8 == 0 || (present(k - k % 8) && multi(k - k % 8)))
}

/// The keys below `n` that the walk yields, in increasing order.
pub open spec fn found_below(n: int, present: spec_fn(int) -> bool, multi: spec_fn(int) -> bool) -> Seq<int>
    decreases n,
{
    if n <= 0 {
        Seq::empty()
    } else {
        found_below(n - 1, present, multi) + if walk_finds(n - 1, present, multi) {
            seq![n - 1]
        } else {
            Seq::empty()
        }
    }
}

/// The keys a walk yields from the function with key `k` on, with `limit`
/// functions of the current device to probe: step by step, as
/// [`PciIterator::step`] goes.
pub open spec fn walk_from(
    k: int,
    limit: int,
    present: spec_fn(int) -> bool,
    multi: spec_fn(int) -> bool,
) -> Seq<int>
    decreases FUNCTION_COUNT - k,
{
    if k < 0 || k >= FUNCTION_COUNT {
        Seq::empty()
    } else {
        let f = k % 8;
        let base = k - f;
        if f == 0 && !present(k) {
            walk_from(k + 8, limit, present, multi)
        } else {
            let lim = if f == 0 {
                if multi(k) {
                    8
                } else {
                    1
                }
            } else {
                limit
            };
            let rest = if f + 1 < lim {
                walk_from(k + 1, lim, present, multi)
            } else {
                walk_from(base + 8, lim, present, multi)
            };
            if present(k) {
                seq![k] + rest
            } else {
                rest
            }
        }
    }
}

/// A walk position that steps can reach: inside a device past function 0,
/// all eight functions are probed and function 0 answered and reported
/// several functions.
pub open spec fn walk_state_ok(k: int, limit: int, present: spec_fn(int) -> bool, multi: spec_fn(int) -> bool) -> bool {
    &&& 0 <= k <= FUNCTION_COUNT
    &&& k % 8 != 0 ==> limit == 8 && present(k - k % 8) && multi(k - k % 8)
}

/// Keys that the walk does not yield add nothing.
proof fn lemma_found_skip(a: int, b: int, present: spec_fn(int) -> bool, multi: spec_fn(int) -> bool)
    requires
        0 <= a <= b,
        forall|k: int| a <= k < b ==> !#[trigger] walk_finds(k, present, multi),
    ensures
        found_below(b, present, multi) == found_below(a, present, multi),
    decreases b - a,
{
    if a < b {
        lemma_found_skip(a, b - 1, present, multi);
        assert(!walk_finds(b - 1, present, multi));
        assert(found_below(b, present, multi) =~= found_below(b - 1, present, multi));
    }
}

/// From any reachable position, what was found before and what the walk
/// still yields make up all the keys the walk yields.
proof fn lemma_walk_completes(k: int, limit: int, present: spec_fn(int) -> bool, multi: spec_fn(int) -> bool)
    requires
        walk_state_ok(k, limit, present, multi),
    ensures
        found_below(k, present, multi) + walk_from(k, limit, present, multi) == found_below(
            FUNCTION_COUNT as int,
            present,
            multi,
        ),
    decreases FUNCTION_COUNT - k,
{
    let total = found_below(FUNCTION_COUNT as int, present, multi);
    if k >= FUNCTION_COUNT {
        assert(found_below(k, present, multi) + Seq::<int>::empty() =~= found_below(k, present, multi));
    } else {
        let f = k % 8;
        let base = k - f;
        if f == 0 && !present(k) {
            assert forall|j: int| k <= j < k + 8 implies !#[trigger] walk_finds(j, present, multi) by {
                assert(j - j % 8 == k);
            }
            lemma_found_skip(k, k + 8, present, multi);
            lemma_walk_completes(k + 8, limit, present, multi);
        } else {
            let lim = if f == 0 {
                if multi(k) {
                    8
                } else {
                    1
                }
            } else {
                limit
            };
            assert(walk_finds(k, present, multi) == present(k));
            let here = if present(k) {
                seq![k]
            } else {
                Seq::<int>::empty()
            };
            assert(found_below(k + 1, present, multi) == found_below(k, present, multi) + here);
            if f + 1 < lim {
                assert((k + 1) % 8 == f + 1);
                lemma_walk_completes(k + 1, lim, present, multi);
                assert(walk_from(k, limit, present, multi) == here + walk_from(k + 1, lim, present, multi));
                assert(found_below(k, present, multi) + (here + walk_from(k + 1, lim, present, multi))
                    =~= found_below(k + 1, present, multi) + walk_from(k + 1, lim, present, multi));
            } else {
                assert forall|j: int| k + 1 <= j < base + 8 implies !#[trigger] walk_finds(
                    j,
                    present,
                    multi,
                ) by {
                    assert(j - j % 8 == base);
                }
                lemma_found_skip(k + 1, base + 8, present, multi);
                lemma_walk_completes(base + 8, lim, present, multi);
                assert(walk_from(k, limit, present, multi) == here + walk_from(base + 8, lim, present, multi));
                assert(found_below(k, present, multi) + (here + walk_from(base + 8, lim, present, multi))
                    =~= found_below(base + 8, present, multi) + walk_from(base + 8, lim, present, multi));
            }
        }
    }
}

/// The keys below `n` that the walk yields are exactly those it finds,
/// each once, in increasing order.
proof fn lemma_found_below_exact(n: int, present: spec_fn(int) -> bool, multi: spec_fn(int) -> bool)
    requires
        0 <= n,
    ensures
        forall|i: int, j: int|
            0 <= i < j < found_below(n, present, multi).len() ==> #[trigger] found_below(
                n,
                present,
                multi,
            )[i] < #[trigger] found_below(n, present, multi)[j],
        forall|k: int|
            #[trigger] found_below(n, present, multi).contains(k) <==> (0 <= k < n && walk_finds(
                k,
                present,
                multi,
            )),
    decreases n,
{
    if n > 0 {
        lemma_found_below_exact(n - 1, present, multi);
        let prev = found_below(n - 1, present, multi);
        let all = found_below(n, present, multi);
        assert forall|i: int, j: int| 0 <= i < j < all.len() implies #[trigger] all[i] < #[trigger] all[j] by {
            if j >= prev.len() {
                assert(all[j] == n - 1);
                assert(prev.contains(all[i]));
            } else {
                assert(all[i] == prev[i] && all[j] == prev[j]);
            }
        }
        assert forall|k: int| #[trigger] all.contains(k) <==> (0 <= k < n && walk_finds(k, present, multi)) by {
            if all.contains(k) {
                let i = choose|i: int| 0 <= i < all.len() && all[i] == k;
                if i < prev.len() {
                    assert(prev[i] == k);
                    assert(prev.contains(k));
                }
            }
            if 0 <= k < n && walk_finds(k, present, multi) {
                if k < n - 1 {
                    assert(prev.contains(k));
                    let i = choose|i: int| 0 <= i < prev.len() && prev[i] == k;
                    assert(all[i] == prev[i]);
                    assert(all.contains(k));
                } else {
                    assert(all[prev.len() as int] == k);
                }
            }
        }
    }
}

/// The whole walk, from function 0 of device 0 on bus 0, yields exactly
/// the functions that answer and are function 0 or belong to a device
/// whose function 0 answers and reports several functions; each once, in
/// increasing order of bus, device and function.
pub proof fn lemma_walk_yields_present_functions(present: spec_fn(int) -> bool, multi: spec_fn(int) -> bool)
    ensures
        walk_from(0, 1, present, multi) == found_below(FUNCTION_COUNT as int, present, multi),
        forall|i: int, j: int|
            0 <= i < j < walk_from(0, 1, present, multi).len() ==> #[trigger] walk_from(
                0,
                1,
                present,
                multi,
            )[i] < #[trigger] walk_from(0, 1, present, multi)[j],
        forall|k: int|
            #[trigger] walk_from(0, 1, present, multi).contains(k) <==> (0 <= k < FUNCTION_COUNT
                && walk_finds(k, present, multi)),
{
    lemma_walk_completes(0, 1, present, multi);
    assert(found_below(0, present, multi) + walk_from(0, 1, present, multi) =~= walk_from(
        0,
        1,
        present,
        multi,
    ));
    lemma_found_below_exact(FUNCTION_COUNT as int, present, multi);
}

/// The key of a function: its function number in the low three bits,
/// function 0 of the next device eight further on.
proof fn lemma_key_parts(bus: u8, device: u8, function: u8)
    requires
        device < 32,
        function < 8,
    ensures
        0 <= function_key(bus, device, function) < FUNCTION_COUNT,
        function_key(bus, device, function) % 8 == function as int,
        function_key(bus, device, function) - function == function_key(bus, device, 0),
        next_device_position(bus, device) matches Some(p) ==> position_key(p) == function_key(
            bus,
            device,
            0,
        ) + 8,
        next_device_position(bus, device) is None ==> function_key(bus, device, 0) + 8
            == FUNCTION_COUNT,
{
    let k = function_key(bus, device, function);
    assert(k == (bus as int * 32 + device as int) * 8 + function as int) by (nonlinear_arith)
        requires
            k == bus as int * 256 + device as int * 8 + function as int,
    ;
    lemma_fundamental_div_mod_converse(k, 8, bus as int * 32 + device as int, function as int);
}

/// Walks all functions of all buses in order. Function 0 of each device is
/// probed; an absent function 0 skips the device, and functions 1 to 7 are
/// probed only when function 0 reports a multi-function device.
///
/// [`PciIterator::current`] names the function to probe next, and
/// [`PciIterator::step`] takes what the probe found and yields the function
/// when it is present.
pub struct PciIterator {
    next: Option<FunctionAddress>,
    function_limit: u8,
}

impl PciIterator {
    #[verifier::type_invariant]
    closed spec fn inv(self) -> bool {
        1 <= self.function_limit <= 8
    }

    /// The function to probe next, if the walk is not over.
    pub closed spec fn spec_current(&self) -> Option<FunctionAddress> {
        self.next
    }

    /// How many functions of the current device are probed.
    pub closed spec fn spec_function_limit(self) -> u8 {
        self.function_limit
    }

    /// The keys the rest of the walk yields, when `present` and `multi`
    /// say what probing each function finds.
    pub open spec fn remaining_walk(&self, present: spec_fn(int) -> bool, multi: spec_fn(int) -> bool) -> Seq<int> {
        match self.spec_current() {
            Some(n) => walk_from(n.key(), self.spec_function_limit() as int, present, multi),
            None => Seq::empty(),
        }
    }

    /// The walk starts at function 0 of device 0 on bus 0.
    pub fn new() -> (r: Self)
        ensures
            position(r.spec_current()) == Some((0u8, 0u8, 0u8)),
            r.spec_function_limit() == 1,
            forall|present: spec_fn(int) -> bool, multi: spec_fn(int) -> bool|
                #[trigger] r.remaining_walk(present, multi) == walk_from(0, 1, present, multi),
    {
        Self { next: Some(FunctionAddress::new(0, 0, 0)), function_limit: 1 }
    }

    #[verifier::when_used_as_spec(spec_current)]
    pub fn current(&self) -> (r: Option<FunctionAddress>)
        ensures
            r == self.spec_current(),
    {
        self.next
    }

    fn next_device(current: FunctionAddress) -> (r: Option<FunctionAddress>)
        ensures
            position(r) == next_device_position(current.spec_bus(), current.spec_device()),
            r matches Some(n) ==> n.key() > current.key(),
    {
        proof {
            use_type_invariant(current);
        }
        if current.device() + 1 < 32 {
            return Some(FunctionAddress::new(current.bus(), current.device() + 1, 0));
        }
        if current.bus() < 255 {
            return Some(FunctionAddress::new(current.bus() + 1, 0, 0));
        }
        None
    }

    /// One step peels its yield off the rest of the walk.
    proof fn lemma_step_walk(before: PciIterator, after: PciIterator, present: bool, header_type: HeaderType)
        requires
            before.next is Some,
            before.next.unwrap().valid(),
            ({
                let c = before.next.unwrap();
                let (bus, device, function) = (c.spec_bus(), c.spec_device(), c.spec_function());
                let limit = if function == 0 {
                    if header_type.spec_raw() & 0x80 != 0 {
                        8u8
                    } else {
                        1u8
                    }
                } else {
                    before.function_limit
                };
                if function == 0 && !present {
                    &&& position(after.next) == next_device_position(bus, device)
                    &&& after.function_limit == before.function_limit
                } else {
                    &&& after.function_limit == limit
                    &&& position(after.next) == if function + 1 < limit {
                        Some((bus, device, (function + 1) as u8))
                    } else {
                        next_device_position(bus, device)
                    }
                }
            }),
        ensures
            forall|p: spec_fn(int) -> bool, m: spec_fn(int) -> bool|
                p(before.next.unwrap().key()) == present && (before.next.unwrap().spec_function() == 0
                    ==> m(before.next.unwrap().key()) == (header_type.spec_raw() & 0x80 != 0))
                    ==> #[trigger] before.remaining_walk(p, m) == (if present {
                    seq![before.next.unwrap().key()]
                } else {
                    Seq::<int>::empty()
                }) + after.remaining_walk(p, m),
    {
        let c = before.next.unwrap();
        lemma_key_parts(c.spec_bus(), c.spec_device(), c.spec_function());
        let k = c.key();
        let f = c.spec_function() as int;
        let base = k - f;
        let lim = after.function_limit as int;
        let nk: int = match after.next {
            Some(n) => n.key(),
            None => FUNCTION_COUNT as int,
        };
        if after.next is Some {
            assert(after.next.unwrap().key() == position_key(position(after.next).unwrap()));
        }
        assert forall|p: spec_fn(int) -> bool, m: spec_fn(int) -> bool|
            p(k) == present && (f == 0 ==> m(k) == (header_type.spec_raw() & 0x80 != 0)) implies #[trigger] before.remaining_walk(
            p,
            m,
        ) == (if present {
            seq![k]
        } else {
            Seq::<int>::empty()
        }) + after.remaining_walk(p, m) by {
            assert(after.remaining_walk(p, m) == walk_from(nk, lim, p, m));
            if f == 0 && !present {
                assert(nk == k + 8);
                assert(before.remaining_walk(p, m) == walk_from(nk, lim, p, m));
                assert(Seq::<int>::empty() + walk_from(nk, lim, p, m) =~= walk_from(nk, lim, p, m));
            } else {
                assert(nk == if f + 1 < lim {
                    k + 1
                } else {
                    base + 8
                });
                if present {
                    assert(before.remaining_walk(p, m) == seq![k] + walk_from(nk, lim, p, m));
                } else {
                    assert(before.remaining_walk(p, m) == walk_from(nk, lim, p, m));
                    assert(Seq::<int>::empty() + walk_from(nk, lim, p, m) =~= walk_from(nk, lim, p, m));
                }
            }
        }
    }

    /// Takes what probing [`PciIterator::current`] found: whether a function
    /// answers there, and (for function 0) its header type. Yields the
    /// function when it is present, and moves on to the next function to
    /// probe.
    pub fn step(&mut self, present: bool, header_type: HeaderType) -> (r: Option<FunctionAddress>)
        requires
            old(self).spec_current() is Some,
        ensures
            ({
                let c = old(self).spec_current().unwrap();
                let (bus, device, function) = (c.spec_bus(), c.spec_device(), c.spec_function());
                let limit = if function == 0 {
                    if header_type.spec_raw() & 0x80 != 0 {
                        8u8
                    } else {
                        1u8
                    }
                } else {
                    old(self).spec_function_limit()
                };
                &&& r == (if present {
                    Some(c)
                } else {
                    None
                })
                &&& if function == 0 && !present {
                    &&& position(final(self).spec_current()) == next_device_position(bus, device)
                    &&& final(self).spec_function_limit() == old(self).spec_function_limit()
                } else {
                    &&& final(self).spec_function_limit() == limit
                    &&& position(final(self).spec_current()) == if function + 1 < limit {
                        Some((bus, device, (function + 1) as u8))
                    } else {
                        next_device_position(bus, device)
                    }
                }
            }),
            final(self).spec_current() matches Some(n) ==> n.key() > old(
                self,
            ).spec_current().unwrap().key(),
            forall|p: spec_fn(int) -> bool, m: spec_fn(int) -> bool|
                p(old(self).spec_current().unwrap().key()) == present && (old(
                    self,
                ).spec_current().unwrap().spec_function() == 0 ==> m(
                    old(self).spec_current().unwrap().key(),
                ) == (header_type.spec_raw() & 0x80 != 0)) ==> #[trigger] old(self).remaining_walk(
                    p,
                    m,
                ) == (if present {
                    seq![old(self).spec_current().unwrap().key()]
                } else {
                    Seq::<int>::empty()
                }) + final(self).remaining_walk(p, m),
    {
        proof {
            use_type_invariant(&*self);
        }
        let ghost before = *self;
        let current = self.next.unwrap();
        if current.function() == 0 {
            if !present {
                self.next = Self::next_device(current);
                proof {
                    use_type_invariant(current);
                    Self::lemma_step_walk(before, *self, present, header_type);
                }
                return None;
            }
            self.function_limit = if header_type.is_multi_function() {
                8
            } else {
                1
            };
        }
        let next_function = current.function() + 1;
        self.next = if next_function < self.function_limit {
            let n = FunctionAddress::new(current.bus(), current.device(), next_function);
            assert(n.key() == current.key() + 1);
            Some(n)
        } else {
            Self::next_device(current)
        };
        proof {
            use_type_invariant(current);
            Self::lemma_step_walk(before, *self, present, header_type);
        }
        if present {
            Some(current)
        } else {
            None
        }
    }
}

} // verus!
