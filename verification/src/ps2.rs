//! The PS/2 controller: commands, the configuration byte, and the writes
//! that reach the controller and the devices behind it.
use crate::io::PortOp;
use vstd::prelude::*;

verus! {

/// The data port, shared by both devices.
pub const DATA_PORT: u16 = 0x60;

/// The status register (read) and command register (write).
pub const STATUS_COMMAND_PORT: u16 = 0x64;

/// Status bit 0: the output buffer holds a byte to read.
pub const DATA_READY: u8 = 0x01;

/// Status bit 1: the input buffer is full; the controller cannot take a byte.
pub const INPUT_BUFFER_FULL: u8 = 0x02;

/// Controller commands.
#[derive(Debug, Clone, Copy, PartialEq, Eq, Structural)]
pub enum Command {
    ReadConfigurationByte,
    WriteConfigurationByte,
    EnableSecondPort,
    WriteToSecondPort,
}

/// The opcode of a controller command.
pub open spec fn command_code(command: Command) -> u8 {
    match command {
        Command::ReadConfigurationByte => 0x20u8,
        Command::WriteConfigurationByte => 0x60u8,
        Command::EnableSecondPort => 0xA8u8,
        Command::WriteToSecondPort => 0xD4u8,
    }
}

impl Command {
    pub fn value(self) -> (r: u8)
        ensures
            r == command_code(self),
    {
        match self {
            Command::ReadConfigurationByte => 0x20,
            Command::WriteConfigurationByte => 0x60,
            Command::EnableSecondPort => 0xA8,
            Command::WriteToSecondPort => 0xD4,
        }
    }
}

/// The controller configuration byte.
#[derive(Debug, Clone, Copy, PartialEq, Eq, Structural)]
pub struct ConfigurationByte(u8);

impl ConfigurationByte {
    pub closed spec fn spec_raw(self) -> u8 {
        self.0
    }

    pub fn from_raw(value: u8) -> (r: ConfigurationByte)
        ensures
            r.spec_raw() == value,
    {
        ConfigurationByte(value)
    }

    #[verifier::when_used_as_spec(spec_raw)]
    pub fn raw(self) -> (r: u8)
        ensures
            r == self.spec_raw(),
    {
        self.0
    }

    /// Sets the second port's interrupt (bit 1) and clears its clock
    /// disable bit (bit 5); the other bits stay.
    pub fn with_second_port_enabled(self) -> (r: ConfigurationByte)
        ensures
            r.spec_raw() == (self.spec_raw() | 0x02) & !0x20u8,
            r.spec_raw() & 0x02 != 0,
            r.spec_raw() & 0x20 == 0,
            r.spec_raw() & 0xDD == self.spec_raw() & 0xDD,
    {
        let raw = self.0;
        let r = (raw | 0x02) & !0x20u8;
        assert(r & 0x02 != 0 && r & 0x20 == 0 && r & 0xDD == raw & 0xDD) by (bit_vector)
            requires
                r == (raw | 0x02) & !0x20u8,
        ;
        ConfigurationByte(r)
    }
}

/// Whether the controller can take a byte, from its status register.
pub fn ready_for_input(status: u8) -> (r: bool)
    ensures
        r == (status & INPUT_BUFFER_FULL == 0),
{
    status & INPUT_BUFFER_FULL == 0
}

/// Whether a byte waits in the data port, from the status register.
pub fn data_ready(status: u8) -> (r: bool)
    ensures
        r == (status & DATA_READY != 0),
{
    status & DATA_READY != 0
}

/// Writes a command, once the controller is ready for input.
pub fn write_command(command: Command) -> (op: PortOp)
    ensures
        op == (PortOp::WriteU8 { port: STATUS_COMMAND_PORT, value: command_code(command) }),
{
    PortOp::WriteU8 { port: STATUS_COMMAND_PORT, value: command.value() }
}

/// Writes a data byte, once the controller is ready for input.
pub fn write_data(data: u8) -> (op: PortOp)
    ensures
        op == (PortOp::WriteU8 { port: DATA_PORT, value: data }),
{
    PortOp::WriteU8 { port: DATA_PORT, value: data }
}

/// Asks for the configuration byte, which then arrives on the data port.
pub fn read_configuration_byte() -> (op: PortOp)
    ensures
        op == (PortOp::WriteU8 { port: STATUS_COMMAND_PORT, value: 0x20 }),
{
    write_command(Command::ReadConfigurationByte)
}

/// Stores a configuration byte: the command, then the byte.
pub fn write_configuration_byte(config: ConfigurationByte) -> (ops: Vec<PortOp>)
    ensures
        ops@ == seq![
            PortOp::WriteU8 { port: STATUS_COMMAND_PORT, value: 0x60 },
            PortOp::WriteU8 { port: DATA_PORT, value: config.spec_raw() },
        ],
{
    let mut ops = Vec::new();
    ops.push(write_command(Command::WriteConfigurationByte));
    ops.push(write_data(config.raw()));
    ops
}

/// Enabling the second port: after the ENABLE SECOND PORT command and a
/// read of the configuration byte `config`, stores the byte with the second
/// port's interrupt enabled and its clock running.
pub fn enable_second_port(config: ConfigurationByte) -> (ops: Vec<PortOp>)
    ensures
        ops@ == seq![
            PortOp::WriteU8 { port: STATUS_COMMAND_PORT, value: 0x60 },
            PortOp::WriteU8 { port: DATA_PORT, value: (config.spec_raw() | 0x02) & !0x20u8 },
        ],
{
    write_configuration_byte(config.with_second_port_enabled())
}

/// The command that enables the second port.
pub fn enable_second_port_command() -> (op: PortOp)
    ensures
        op == (PortOp::WriteU8 { port: STATUS_COMMAND_PORT, value: 0xA8 }),
{
    write_command(Command::EnableSecondPort)
}

} // verus!
