//! The PS/2 mouse: device commands, movement packets, and the state they
//! accumulate into.
use crate::input::{MouseButton, MouseState};
use crate::io::PortOp;
use crate::ps2;
use vstd::prelude::*;

verus! {

/// The byte a mouse answers an accepted command with.
pub const ACK: u8 = 0xFA;

/// The byte a mouse answers with when it wants a command sent again.
pub const RESEND: u8 = 0xFE;

/// Bit 3 of a packet's first byte, always set.
pub const FIRST_BYTE_MARKER: u8 = 0x08;

/// Mouse commands.
#[derive(Debug, Clone, Copy, PartialEq, Eq, Structural)]
pub enum Command {
    EnableDataReporting,
    DisableDataReporting,
    SetDefaults,
    Reset,
}

/// The opcode of a mouse command.
pub open spec fn command_code(command: Command) -> u8 {
    match command {
        Command::EnableDataReporting => 0xF4u8,
        Command::DisableDataReporting => 0xF5u8,
        Command::SetDefaults => 0xF6u8,
        Command::Reset => 0xFFu8,
    }
}

impl Command {
    pub fn value(self) -> (r: u8)
        ensures
            r == command_code(self),
    {
        match self {
            Command::EnableDataReporting => 0xF4,
            Command::DisableDataReporting => 0xF5,
            Command::SetDefaults => 0xF6,
            Command::Reset => 0xFF,
        }
    }
}

/// Why the mouse refused a command.
#[derive(Debug, Clone, Copy, PartialEq, Eq, Structural)]
pub enum CommandError {
    Resend,
    UnexpectedResponse(u8),
}

/// Sends a command to the mouse: WRITE TO SECOND PORT to the controller,
/// then the opcode as data (each once the controller is ready for input).
/// The mouse's answer is then read from the data port and passed to
/// [`check_response`].
pub fn send_command(command: Command) -> (ops: Vec<PortOp>)
    ensures
        ops@ == seq![
            PortOp::WriteU8 { port: ps2::STATUS_COMMAND_PORT, value: 0xD4 },
            PortOp::WriteU8 { port: ps2::DATA_PORT, value: command_code(command) },
        ],
{
    let mut ops = Vec::new();
    ops.push(ps2::write_command(ps2::Command::WriteToSecondPort));
    ops.push(ps2::write_data(command.value()));
    ops
}

/// The outcome of a command, from the mouse's answer.
pub fn check_response(response: u8) -> (r: Result<(), CommandError>)
    ensures
        r == (if response == ACK {
            Ok::<(), CommandError>(())
        } else if response == RESEND {
            Err(CommandError::Resend)
        } else {
            Err(CommandError::UnexpectedResponse(response))
        }),
{
    if response == ACK {
        Ok(())
    } else if response == RESEND {
        Err(CommandError::Resend)
    } else {
        Err(CommandError::UnexpectedResponse(response))
    }
}

/// Why a packet was rejected.
#[derive(Debug, Clone, Copy, PartialEq, Eq, Structural)]
pub enum PacketParseError {
    InvalidFirstByte(u8),
}

/// One three-byte movement packet.
#[derive(Debug, Clone, Copy, PartialEq, Eq, Structural)]
pub struct Packet {
    pub left_button: bool,
    pub right_button: bool,
    pub middle_button: bool,
    pub x_movement: i16,
    pub y_movement: i16,
    pub x_overflow: bool,
    pub y_overflow: bool,
}

/// A 9-bit two's complement movement: the byte, minus 256 when the sign
/// bit is set.
pub open spec fn movement(byte: u8, negative: bool) -> int {
    if negative {
        byte as int - 256
    } else {
        byte as int
    }
}

/// The packet that three bytes with a valid first byte encode.
pub open spec fn packet_of(bytes: Seq<u8>) -> Packet {
    let flags = bytes[0];
    Packet {
        left_button: flags & 0x01 != 0,
        right_button: flags & 0x02 != 0,
        middle_button: flags & 0x04 != 0,
        x_movement: movement(bytes[1], flags & 0x10 != 0) as i16,
        y_movement: movement(bytes[2], flags & 0x20 != 0) as i16,
        x_overflow: flags & 0x40 != 0,
        y_overflow: flags & 0x80 != 0,
    }
}

impl Packet {
    /// Decodes a packet: the first byte holds the buttons (bits 0-2), an
    /// always-set bit 3, the signs (bits 4 and 5) and the overflows (bits 6
    /// and 7); the other two bytes hold the x and y movement.
    pub fn from_bytes(bytes: [u8; 3]) -> (r: Result<Self, PacketParseError>)
        ensures
            r == (if bytes@[0] & FIRST_BYTE_MARKER == 0 {
                Err::<Packet, PacketParseError>(PacketParseError::InvalidFirstByte(bytes@[0]))
            } else {
                Ok(packet_of(bytes@))
            }),
    {
        let flags = bytes[0];
        if flags & FIRST_BYTE_MARKER == 0 {
            return Err(PacketParseError::InvalidFirstByte(flags));
        }
        let mut x_movement = bytes[1] as i16;
        let mut y_movement = bytes[2] as i16;
        if flags & 0x10 != 0 {
            x_movement = x_movement - 256;
        }
        if flags & 0x20 != 0 {
            y_movement = y_movement - 256;
        }
        Ok(
            Packet {
                left_button: flags & 0x01 != 0,
                right_button: flags & 0x02 != 0,
                middle_button: flags & 0x04 != 0,
                x_movement,
                y_movement,
                x_overflow: flags & 0x40 != 0,
                y_overflow: flags & 0x80 != 0,
            },
        )
    }
}

/// `a + b`, clamped to the range of `i32`.
pub open spec fn saturating_add_i32(a: int, b: int) -> i32 {
    if a + b > i32::MAX {
        i32::MAX
    } else if a + b < i32::MIN {
        i32::MIN
    } else {
        (a + b) as i32
    }
}

/// `a + b`, clamped to the range of `u16`.
pub open spec fn saturating_add_u16(a: int, b: int) -> u16 {
    if a + b > u16::MAX {
        u16::MAX
    } else if a + b < 0 {
        0
    } else {
        (a + b) as u16
    }
}

fn add_i32_saturating(a: i32, b: i32) -> (r: i32)
    ensures
        r == saturating_add_i32(a as int, b as int),
{
    let sum = a as i64 + b as i64;
    if sum > i32::MAX as i64 {
        i32::MAX
    } else if sum < i32::MIN as i64 {
        i32::MIN
    } else {
        sum as i32
    }
}

fn add_u16_saturating_signed(a: u16, b: i32) -> (r: u16)
    requires
        -0x1_0000 <= b <= 0x1_0000,
    ensures
        r == saturating_add_u16(a as int, b as int),
{
    let sum = a as i32 + b;
    if sum > u16::MAX as i32 {
        u16::MAX
    } else if sum < 0 {
        0
    } else {
        sum as u16
    }
}

/// The mouse as the kernel's older driver tracks it: a signed position and
/// three buttons.
#[derive(Debug, Clone, Copy, PartialEq, Eq, Structural)]
pub struct State {
    pub x: i32,
    pub y: i32,
    pub left_button: bool,
    pub right_button: bool,
    pub middle_button: bool,
}

impl State {
    pub fn new() -> (r: Self)
        ensures
            r == (State {
                x: 0,
                y: 0,
                left_button: false,
                right_button: false,
                middle_button: false,
            }),
    {
        Self { x: 0, y: 0, left_button: false, right_button: false, middle_button: false }
    }

    /// Takes the buttons of a packet, and adds each movement that did not
    /// overflow, clamped to the range of `i32`.
    pub fn apply_packet(&mut self, packet: Packet)
        ensures
            final(self).left_button == packet.left_button,
            final(self).right_button == packet.right_button,
            final(self).middle_button == packet.middle_button,
            final(self).x == if packet.x_overflow {
                old(self).x
            } else {
                saturating_add_i32(old(self).x as int, packet.x_movement as int)
            },
            final(self).y == if packet.y_overflow {
                old(self).y
            } else {
                saturating_add_i32(old(self).y as int, packet.y_movement as int)
            },
    {
        self.left_button = packet.left_button;
        self.right_button = packet.right_button;
        self.middle_button = packet.middle_button;
        if !packet.x_overflow {
            self.x = add_i32_saturating(self.x, packet.x_movement as i32);
        }
        if !packet.y_overflow {
            self.y = add_i32_saturating(self.y, packet.y_movement as i32);
        }
    }
}

/// Assembles packets from the bytes the mouse sends, one at a time, and
/// keeps the resulting [`MouseState`]. Bytes that cannot start a packet are
/// dropped until one can.
pub struct Mouse {
    packet_bytes: [u8; 3],
    packet_index: usize,
    state: MouseState,
}

impl Mouse {
    #[verifier::type_invariant]
    closed spec fn inv(self) -> bool {
        &&& self.packet_index < 3
        &&& self.packet_index > 0 ==> self.packet_bytes@[0] & FIRST_BYTE_MARKER != 0
    }

    /// The bytes of the packet received so far.
    pub closed spec fn pending(self) -> Seq<u8> {
        self.packet_bytes@.subrange(0, self.packet_index as int)
    }

    pub closed spec fn spec_state(&self) -> MouseState {
        self.state
    }

    pub fn new() -> (r: Self)
        ensures
            r.pending() == Seq::<u8>::empty(),
            r.spec_state() == MouseState::spec_new(),
    {
        Self { packet_bytes: [0, 0, 0], packet_index: 0, state: MouseState::new() }
    }

    #[verifier::when_used_as_spec(spec_state)]
    pub fn state(&self) -> (r: MouseState)
        ensures
            r == self.spec_state(),
    {
        self.state
    }

    /// Takes one byte. A byte without bit 3 cannot start a packet and is
    /// dropped; the third byte of a packet completes it, and the packet
    /// moves the position (x right, y up on the mouse is down on screen),
    /// clamped to the range of `u16`, unless a movement overflowed, and sets
    /// the left and right buttons.
    pub fn handle_byte(&mut self, byte: u8)
        ensures
            old(self).pending().len() == 0 && byte & FIRST_BYTE_MARKER == 0 ==> *final(self)
                == *old(self),
            old(self).pending().len() == 0 && byte & FIRST_BYTE_MARKER != 0 ==> {
                &&& final(self).pending() == seq![byte]
                &&& final(self).spec_state() == old(self).spec_state()
            },
            old(self).pending().len() == 1 ==> {
                &&& final(self).pending() == old(self).pending().push(byte)
                &&& final(self).spec_state() == old(self).spec_state()
            },
            old(self).pending().len() == 2 ==> {
                &&& final(self).pending().len() == 0
                &&& final(self).spec_state() == mouse_after_packet(
                    old(self).spec_state(),
                    packet_of(old(self).pending().push(byte)),
                )
            },
    {
        proof {
            use_type_invariant(&*self);
        }
        if self.packet_index == 0 && byte & FIRST_BYTE_MARKER == 0 {
            return;
        }
        let index = self.packet_index;
        self.packet_bytes[index] = byte;
        if index + 1 != 3 {
            self.packet_index = index + 1;
            proof {
                assert(self.pending() =~= old(self).pending().push(byte));
            }
            return;
        }
        self.packet_index = 0;
        assert(self.packet_bytes@ =~= old(self).pending().push(byte));
        let packet = match Packet::from_bytes(self.packet_bytes) {
            Ok(packet) => packet,
            Err(_) => {
                return;
            },
        };
        let mut state = self.state;
        let x = if packet.x_overflow {
            state.x()
        } else {
            add_u16_saturating_signed(state.x(), packet.x_movement as i32)
        };
        let y = if packet.y_overflow {
            state.y()
        } else {
            add_u16_saturating_signed(state.y(), -(packet.y_movement as i32))
        };
        state.set_position(x, y);
        state.set_button(MouseButton::Left, packet.left_button);
        state.set_button(MouseButton::Right, packet.right_button);
        self.state = state;
    }
}

/// The mouse state after a packet: each movement that did not overflow
/// moves the position, clamped to `u16` (y in the other direction), and the
/// left and right buttons follow the packet.
pub open spec fn mouse_after_packet(state: MouseState, packet: Packet) -> MouseState {
    let x = if packet.x_overflow {
        state.spec_x()
    } else {
        saturating_add_u16(state.spec_x() as int, packet.x_movement as int)
    };
    let y = if packet.y_overflow {
        state.spec_y()
    } else {
        saturating_add_u16(state.spec_y() as int, -(packet.y_movement as int))
    };
    state.with_position(x, y).with_button(MouseButton::Left, packet.left_button).with_button(
        MouseButton::Right,
        packet.right_button,
    )
}

/// After a packet, the position moves by the packet's movement (y
/// reversed), clamped to `u16`, on each axis whose movement did not
/// overflow, and the left and right buttons are as the packet reports.
pub proof fn lemma_mouse_after_packet(state: MouseState, packet: Packet)
    ensures
        ({
            let next = mouse_after_packet(state, packet);
            &&& next.spec_x() == if packet.x_overflow {
                state.spec_x()
            } else {
                saturating_add_u16(state.spec_x() as int, packet.x_movement as int)
            }
            &&& next.spec_y() == if packet.y_overflow {
                state.spec_y()
            } else {
                saturating_add_u16(state.spec_y() as int, -(packet.y_movement as int))
            }
            &&& next.button_down(MouseButton::Left) == packet.left_button
            &&& next.button_down(MouseButton::Right) == packet.right_button
        }),
{
    let x = if packet.x_overflow {
        state.spec_x()
    } else {
        saturating_add_u16(state.spec_x() as int, packet.x_movement as int)
    };
    let y = if packet.y_overflow {
        state.spec_y()
    } else {
        saturating_add_u16(state.spec_y() as int, -(packet.y_movement as int))
    };
    let moved = state.with_position(x, y);
    state.lemma_with_position(x, y);
    let left = moved.with_button(MouseButton::Left, packet.left_button);
    moved.lemma_with_button(MouseButton::Left, packet.left_button);
    left.lemma_with_button(MouseButton::Right, packet.right_button);
}

} // verus!
