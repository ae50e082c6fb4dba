//! Bringing up the 82540EM, step by step: the order of its configuration,
//! reset and receive-ring setup, as a state machine that answers each event
//! (a configuration read, a register read, the end of an access or a wait,
//! the mapping of its registers) with the next action.
use crate::e1000::{
    check_command, check_reset, configure_rx_ring_ops, enabled_command, find_bars, register,
    registers_ok, reset_finish_ops, reset_quiesce_ops, reset_request_ops, Error, CTRL_REGISTER_OFFSET,
    CTRL_RST, ICR_REGISTER_OFFSET, IMC_REGISTER_OFFSET, RAH0_REGISTER_OFFSET, RAL0_REGISTER_OFFSET,
    RCTL_REGISTER_OFFSET, RDBAH_REGISTER_OFFSET, RDBAL_REGISTER_OFFSET, RDH_REGISTER_OFFSET,
    RDLEN_REGISTER_OFFSET, RDT_REGISTER_OFFSET, RX_DESCRIPTOR_RING_SIZE, STATUS_REGISTER_OFFSET,
    TCTL_PSP, TCTL_REGISTER_OFFSET,
};
use crate::io::PortOp;
use crate::mmio::{MmioOp, MmioRegion};
use crate::pci::{
    bar_spec, config_u16, find_io_bar_from, get_command, set_command, Bar, ConfigSpace,
    FunctionAddress, IoBar, MemoryBar, ADDRESS_PORT, DATA_PORT,
};
use vstd::prelude::*;

verus! {

/// Where a bring-up stands, with what it has learnt so far.
#[derive(Debug, Clone, Copy, PartialEq, Eq, Structural)]
pub enum InitPhase {
    /// Waiting for the configuration space, to find the base addresses.
    ReadingBars,
    /// The command register with I/O, memory and bus mastering enabled is
    /// being written.
    CommandWritten { io_bar: IoBar, registers_bar: MemoryBar },
    /// Waiting for the configuration space, to check the command register.
    CheckingCommand { io_bar: IoBar, registers_bar: MemoryBar },
    /// Waiting for the registers to be mapped and the receive ring to be
    /// allocated.
    Mapping { io_bar: IoBar },
    /// Interrupts are being masked and receive and transmit stopped.
    Quiescing { io_bar: IoBar, registers: MmioRegion, ring: u64 },
    /// Waiting 10 ms before the reset.
    Settling { io_bar: IoBar, registers: MmioRegion, ring: u64 },
    /// Waiting for the control register.
    ReadingControl { io_bar: IoBar, registers: MmioRegion, ring: u64 },
    /// The reset bit is being written through the I/O window.
    RequestingReset { registers: MmioRegion, ring: u64 },
    /// Waiting 5 ms for the reset.
    ResetWait { registers: MmioRegion, ring: u64 },
    /// Waiting for the control register, to check the reset is over.
    CheckingReset { registers: MmioRegion, ring: u64 },
    /// Interrupts are being masked again and causes cleared.
    Finishing { registers: MmioRegion, ring: u64 },
    /// Waiting for the low half of the MAC address.
    ReadingMacLow { registers: MmioRegion, ring: u64 },
    /// Waiting for the high half of the MAC address.
    ReadingMacHigh { registers: MmioRegion, ring: u64, low: u32 },
    /// The receive ring registers are being written.
    ConfiguringRing { high: u32, low: u32 },
    /// The bring-up is over.
    Finished,
}

/// What the caller reports.
pub enum InitEvent {
    /// The function's configuration space, as read.
    Config(ConfigSpace),
    /// The requested accesses, or the wait, are done.
    Completed,
    /// The register space is mapped at `registers` and the receive ring
    /// (its descriptors filled) is at physical address `ring`.
    Mapped { registers: MmioRegion, ring: u64 },
    /// No memory could be had for the receive ring.
    RingUnavailable,
    /// A register, as read.
    Value(u32),
}

/// What the caller does next.
#[derive(Debug, Clone, Copy, PartialEq, Eq, Structural)]
pub enum InitAction {
    /// Read the function's configuration space and report it.
    ReadConfig,
    /// Carry out the port writes that come with the action and report
    /// [`InitEvent::Completed`].
    WritePorts,
    /// Carry out the register accesses that come with the action and report
    /// [`InitEvent::Completed`].
    AccessRegisters,
    /// Map the register space at this base and allocate and fill the receive
    /// ring, and report [`InitEvent::Mapped`] or
    /// [`InitEvent::RingUnavailable`].
    MapRegisters(MemoryBar),
    /// Wait this many milliseconds and report [`InitEvent::Completed`].
    Sleep(u64),
    /// Carry out this register read and report its value.
    ReadRegister(MmioOp),
    /// The controller is up; its MAC address is
    /// `MacAddress::from_parts(mac_high, mac_low)`.
    Succeeded { mac_high: u32, mac_low: u32 },
    /// The bring-up failed.
    Failed(Error),
}

/// A bring-up of the controller at `function`.
#[derive(Debug, Clone, Copy, PartialEq, Eq, Structural)]
pub struct InitSession {
    pub function: FunctionAddress,
    pub phase: InitPhase,
}

/// The port writes that store `value` in the command register.
pub open spec fn command_writes(function: FunctionAddress, value: u16) -> Seq<PortOp> {
    seq![
        PortOp::WriteU32 { port: ADDRESS_PORT, value: function.spec_config_address(0x04) },
        PortOp::WriteU16 { port: DATA_PORT, value },
    ]
}

/// The read of a 32-bit register.
pub open spec fn register_read(registers: MmioRegion, offset: usize) -> MmioOp {
    MmioOp::ReadU32 { address: register(&registers, offset) }
}

/// The accesses that quiet the controller before a reset.
pub open spec fn quiesce_accesses(registers: MmioRegion) -> Seq<MmioOp> {
    seq![
        MmioOp::WriteU32 { address: register(&registers, IMC_REGISTER_OFFSET), value: 0xffff_ffff },
        MmioOp::WriteU32 { address: register(&registers, RCTL_REGISTER_OFFSET), value: 0 },
        MmioOp::WriteU32 { address: register(&registers, TCTL_REGISTER_OFFSET), value: TCTL_PSP },
        MmioOp::ReadU32 { address: register(&registers, STATUS_REGISTER_OFFSET) },
    ]
}

/// The accesses that end a reset.
pub open spec fn finish_accesses(registers: MmioRegion) -> Seq<MmioOp> {
    seq![
        MmioOp::WriteU32 { address: register(&registers, IMC_REGISTER_OFFSET), value: 0xffff_ffff },
        MmioOp::ReadU32 { address: register(&registers, ICR_REGISTER_OFFSET) },
    ]
}

/// The accesses that point the controller at the receive ring at `ring`.
pub open spec fn ring_accesses(registers: MmioRegion, ring: u64) -> Seq<MmioOp> {
    seq![
        MmioOp::WriteU32 {
            address: register(&registers, RDBAL_REGISTER_OFFSET),
            value: (ring % 0x1_0000_0000) as u32,
        },
        MmioOp::WriteU32 {
            address: register(&registers, RDBAH_REGISTER_OFFSET),
            value: (ring / 0x1_0000_0000) as u32,
        },
        MmioOp::WriteU32 {
            address: register(&registers, RDLEN_REGISTER_OFFSET),
            value: RX_DESCRIPTOR_RING_SIZE as u32,
        },
        MmioOp::WriteU32 { address: register(&registers, RDH_REGISTER_OFFSET), value: 0 },
        MmioOp::WriteU32 { address: register(&registers, RDT_REGISTER_OFFSET), value: 0 },
    ]
}

/// The session moved on to `phase`.
pub open spec fn moved(s: InitSession, phase: InitPhase) -> InitSession {
    InitSession { function: s.function, phase }
}

/// The end of a bring-up with `error`.
pub open spec fn fail(s: InitSession, error: Error) -> (InitSession, InitAction, Seq<PortOp>, Seq<MmioOp>) {
    (moved(s, InitPhase::Finished), InitAction::Failed(error), Seq::empty(), Seq::empty())
}

/// An action without accesses.
pub open spec fn just(s: InitSession, phase: InitPhase, action: InitAction) -> (
    InitSession,
    InitAction,
    Seq<PortOp>,
    Seq<MmioOp>,
) {
    (moved(s, phase), action, Seq::empty(), Seq::empty())
}

/// Whether the session waits for `event`.
pub open spec fn expects(s: InitSession, event: InitEvent) -> bool {
    match s.phase {
        InitPhase::ReadingBars | InitPhase::CheckingCommand { .. } => event is Config,
        InitPhase::Mapping { .. } => event is Mapped || event is RingUnavailable,
        InitPhase::ReadingControl { .. } | InitPhase::CheckingReset { .. }
        | InitPhase::ReadingMacLow { .. } | InitPhase::ReadingMacHigh { .. } => event is Value,
        InitPhase::Finished => false,
        _ => event is Completed,
    }
}

/// The registers every phase that holds them can reach.
pub open spec fn consistent(s: InitSession) -> bool {
    match s.phase {
        InitPhase::Quiescing { registers, .. } | InitPhase::Settling { registers, .. }
        | InitPhase::ReadingControl { registers, .. } | InitPhase::RequestingReset { registers, .. }
        | InitPhase::ResetWait { registers, .. } | InitPhase::CheckingReset { registers, .. }
        | InitPhase::Finishing { registers, .. } | InitPhase::ReadingMacLow { registers, .. }
        | InitPhase::ReadingMacHigh { registers, .. } => registers_ok(&registers),
        _ => true,
    }
}

/// The next state, the action, and the port writes and register accesses
/// that go with it, on an event the session waits for. The steps: find the
/// I/O base and the memory base 0; enable I/O, memory and bus mastering;
/// check all three stuck; map the registers and set up the ring; mask
/// interrupts and stop receive and transmit; wait 10 ms; read the control
/// register and write it back with the reset bit through the I/O window;
/// wait 5 ms; check the reset bit cleared; mask interrupts and clear
/// causes; read the MAC address, low half then high half; point the
/// controller at the ring.
pub open spec fn transition(s: InitSession, event: InitEvent) -> (InitSession, InitAction, Seq<PortOp>, Seq<MmioOp>) {
    match s.phase {
        InitPhase::ReadingBars => match event {
            InitEvent::Config(config) => match find_io_bar_from(config@, 0, false) {
                None => fail(s, Error::IoBarUnavailable),
                Some(io_bar) => match bar_spec(config@, 0) {
                    Some(Bar::Memory(registers_bar)) => (
                        moved(s, InitPhase::CommandWritten { io_bar, registers_bar }),
                        InitAction::WritePorts,
                        command_writes(s.function, config_u16(config@, 0x04) | 7),
                        Seq::empty(),
                    ),
                    _ => fail(s, Error::RegistersBarUnavailable),
                },
            },
            _ => fail(s, Error::IoBarUnavailable),
        },
        InitPhase::CommandWritten { io_bar, registers_bar } => just(
            s,
            InitPhase::CheckingCommand { io_bar, registers_bar },
            InitAction::ReadConfig,
        ),
        InitPhase::CheckingCommand { io_bar, registers_bar } => match event {
            InitEvent::Config(config) => {
                let raw = config_u16(config@, 0x04);
                if raw & 1 == 0 {
                    fail(s, Error::IoSpaceEnableFailed)
                } else if raw & 2 == 0 {
                    fail(s, Error::MemorySpaceEnableFailed)
                } else if raw & 4 == 0 {
                    fail(s, Error::BusMasterEnableFailed)
                } else {
                    just(s, InitPhase::Mapping { io_bar }, InitAction::MapRegisters(registers_bar))
                }
            },
            _ => fail(s, Error::IoSpaceEnableFailed),
        },
        InitPhase::Mapping { io_bar } => match event {
            InitEvent::Mapped { registers, ring } => (
                moved(s, InitPhase::Quiescing { io_bar, registers, ring }),
                InitAction::AccessRegisters,
                Seq::empty(),
                quiesce_accesses(registers),
            ),
            _ => fail(s, Error::RxRingAllocationFailed),
        },
        InitPhase::Quiescing { io_bar, registers, ring } => just(
            s,
            InitPhase::Settling { io_bar, registers, ring },
            InitAction::Sleep(10),
        ),
        InitPhase::Settling { io_bar, registers, ring } => just(
            s,
            InitPhase::ReadingControl { io_bar, registers, ring },
            InitAction::ReadRegister(register_read(registers, CTRL_REGISTER_OFFSET)),
        ),
        InitPhase::ReadingControl { io_bar, registers, ring } => match event {
            InitEvent::Value(ctrl) => (
                moved(s, InitPhase::RequestingReset { registers, ring }),
                InitAction::WritePorts,
                seq![
                    PortOp::WriteU32 { port: io_bar.base, value: CTRL_REGISTER_OFFSET as u32 },
                    PortOp::WriteU32 { port: (io_bar.base + 4) as u16, value: ctrl | CTRL_RST },
                ],
                Seq::empty(),
            ),
            _ => fail(s, Error::ResetFailed),
        },
        InitPhase::RequestingReset { registers, ring } => just(
            s,
            InitPhase::ResetWait { registers, ring },
            InitAction::Sleep(5),
        ),
        InitPhase::ResetWait { registers, ring } => just(
            s,
            InitPhase::CheckingReset { registers, ring },
            InitAction::ReadRegister(register_read(registers, CTRL_REGISTER_OFFSET)),
        ),
        InitPhase::CheckingReset { registers, ring } => match event {
            InitEvent::Value(ctrl) => if ctrl & CTRL_RST != 0 {
                fail(s, Error::ResetFailed)
            } else {
                (
                    moved(s, InitPhase::Finishing { registers, ring }),
                    InitAction::AccessRegisters,
                    Seq::empty(),
                    finish_accesses(registers),
                )
            },
            _ => fail(s, Error::ResetFailed),
        },
        InitPhase::Finishing { registers, ring } => just(
            s,
            InitPhase::ReadingMacLow { registers, ring },
            InitAction::ReadRegister(register_read(registers, RAL0_REGISTER_OFFSET)),
        ),
        InitPhase::ReadingMacLow { registers, ring } => match event {
            InitEvent::Value(low) => just(
                s,
                InitPhase::ReadingMacHigh { registers, ring, low },
                InitAction::ReadRegister(register_read(registers, RAH0_REGISTER_OFFSET)),
            ),
            _ => fail(s, Error::ResetFailed),
        },
        InitPhase::ReadingMacHigh { registers, ring, low } => match event {
            InitEvent::Value(high) => (
                moved(s, InitPhase::ConfiguringRing { high, low }),
                InitAction::AccessRegisters,
                Seq::empty(),
                ring_accesses(registers, ring),
            ),
            _ => fail(s, Error::ResetFailed),
        },
        InitPhase::ConfiguringRing { high, low } => just(
            s,
            InitPhase::Finished,
            InitAction::Succeeded { mac_high: high, mac_low: low },
        ),
        InitPhase::Finished => fail(s, Error::ResetFailed),
    }
}

/// The position of a phase along the bring-up.
pub open spec fn position(phase: InitPhase) -> int {
    match phase {
        InitPhase::ReadingBars => 0,
        InitPhase::CommandWritten { .. } => 1,
        InitPhase::CheckingCommand { .. } => 2,
        InitPhase::Mapping { .. } => 3,
        InitPhase::Quiescing { .. } => 4,
        InitPhase::Settling { .. } => 5,
        InitPhase::ReadingControl { .. } => 6,
        InitPhase::RequestingReset { .. } => 7,
        InitPhase::ResetWait { .. } => 8,
        InitPhase::CheckingReset { .. } => 9,
        InitPhase::Finishing { .. } => 10,
        InitPhase::ReadingMacLow { .. } => 11,
        InitPhase::ReadingMacHigh { .. } => 12,
        InitPhase::ConfiguringRing { .. } => 13,
        InitPhase::Finished => 14,
    }
}

/// Starts a bring-up: the configuration space is read first.
pub fn start(function: FunctionAddress) -> (r: (InitSession, InitAction))
    ensures
        r.0 == (InitSession { function, phase: InitPhase::ReadingBars }),
        r.1 == InitAction::ReadConfig,
{
    (InitSession { function, phase: InitPhase::ReadingBars }, InitAction::ReadConfig)
}

impl InitSession {
    /// The next state and action on `event`, which must be one the session
    /// waits for; mapped registers must reach every register the driver
    /// uses, and the I/O window's data port must exist when the reset is
    /// requested.
    pub fn step(&mut self, event: InitEvent) -> (r: (InitAction, Vec<PortOp>, Vec<MmioOp>))
        requires
            consistent(*old(self)),
            expects(*old(self), event),
            event matches InitEvent::Mapped { registers, .. } ==> registers_ok(&registers),
            old(self).phase matches InitPhase::ReadingControl { io_bar, .. } ==> io_bar.base + 4
                <= u16::MAX,
        ensures
            (*final(self), r.0, r.1@, r.2@) == transition(*old(self), event),
            consistent(*final(self)),
    {
        let none_ports: Vec<PortOp> = Vec::new();
        let none_mmio: Vec<MmioOp> = Vec::new();
        proof {
            assert(none_ports@ =~= Seq::<PortOp>::empty());
            assert(none_mmio@ =~= Seq::<MmioOp>::empty());
        }
        let phase = self.phase;
        match phase {
            InitPhase::ReadingBars => {
                if let InitEvent::Config(config) = event {
                    match find_bars(&config) {
                        Err(error) => {
                            self.phase = InitPhase::Finished;
                            (InitAction::Failed(error), none_ports, none_mmio)
                        },
                        Ok((io_bar, registers_bar)) => {
                            let command = enabled_command(get_command(&config));
                            let ports = set_command(self.function, command);
                            self.phase = InitPhase::CommandWritten { io_bar, registers_bar };
                            (InitAction::WritePorts, ports, none_mmio)
                        },
                    }
                } else {
                    (InitAction::ReadConfig, none_ports, none_mmio)
                }
            },
            InitPhase::CommandWritten { io_bar, registers_bar } => {
                self.phase = InitPhase::CheckingCommand { io_bar, registers_bar };
                (InitAction::ReadConfig, none_ports, none_mmio)
            },
            InitPhase::CheckingCommand { io_bar, registers_bar } => {
                if let InitEvent::Config(config) = event {
                    match check_command(get_command(&config)) {
                        Err(error) => {
                            self.phase = InitPhase::Finished;
                            (InitAction::Failed(error), none_ports, none_mmio)
                        },
                        Ok(()) => {
                            self.phase = InitPhase::Mapping { io_bar };
                            (InitAction::MapRegisters(registers_bar), none_ports, none_mmio)
                        },
                    }
                } else {
                    (InitAction::ReadConfig, none_ports, none_mmio)
                }
            },
            InitPhase::Mapping { io_bar } => {
                match event {
                    InitEvent::Mapped { registers, ring } => {
                        let ops = reset_quiesce_ops(&registers);
                        self.phase = InitPhase::Quiescing { io_bar, registers, ring };
                        (InitAction::AccessRegisters, none_ports, ops)
                    },
                    _ => {
                        self.phase = InitPhase::Finished;
                        (InitAction::Failed(Error::RxRingAllocationFailed), none_ports, none_mmio)
                    },
                }
            },
            InitPhase::Quiescing { io_bar, registers, ring } => {
                self.phase = InitPhase::Settling { io_bar, registers, ring };
                (InitAction::Sleep(10), none_ports, none_mmio)
            },
            InitPhase::Settling { io_bar, registers, ring } => {
                let read = registers.read_u32(CTRL_REGISTER_OFFSET);
                self.phase = InitPhase::ReadingControl { io_bar, registers, ring };
                (InitAction::ReadRegister(read), none_ports, none_mmio)
            },
            InitPhase::ReadingControl { io_bar, registers, ring } => {
                if let InitEvent::Value(ctrl) = event {
                    let ports = reset_request_ops(io_bar, ctrl);
                    self.phase = InitPhase::RequestingReset { registers, ring };
                    (InitAction::WritePorts, ports, none_mmio)
                } else {
                    (InitAction::ReadConfig, none_ports, none_mmio)
                }
            },
            InitPhase::RequestingReset { registers, ring } => {
                self.phase = InitPhase::ResetWait { registers, ring };
                (InitAction::Sleep(5), none_ports, none_mmio)
            },
            InitPhase::ResetWait { registers, ring } => {
                let read = registers.read_u32(CTRL_REGISTER_OFFSET);
                self.phase = InitPhase::CheckingReset { registers, ring };
                (InitAction::ReadRegister(read), none_ports, none_mmio)
            },
            InitPhase::CheckingReset { registers, ring } => {
                if let InitEvent::Value(ctrl) = event {
                    match check_reset(ctrl) {
                        Err(error) => {
                            self.phase = InitPhase::Finished;
                            (InitAction::Failed(error), none_ports, none_mmio)
                        },
                        Ok(()) => {
                            let ops = reset_finish_ops(&registers);
                            self.phase = InitPhase::Finishing { registers, ring };
                            (InitAction::AccessRegisters, none_ports, ops)
                        },
                    }
                } else {
                    (InitAction::ReadConfig, none_ports, none_mmio)
                }
            },
            InitPhase::Finishing { registers, ring } => {
                let read = registers.read_u32(RAL0_REGISTER_OFFSET);
                self.phase = InitPhase::ReadingMacLow { registers, ring };
                (InitAction::ReadRegister(read), none_ports, none_mmio)
            },
            InitPhase::ReadingMacLow { registers, ring } => {
                if let InitEvent::Value(low) = event {
                    let read = registers.read_u32(RAH0_REGISTER_OFFSET);
                    self.phase = InitPhase::ReadingMacHigh { registers, ring, low };
                    (InitAction::ReadRegister(read), none_ports, none_mmio)
                } else {
                    (InitAction::ReadConfig, none_ports, none_mmio)
                }
            },
            InitPhase::ReadingMacHigh { registers, ring, low } => {
                if let InitEvent::Value(high) = event {
                    let ops = configure_rx_ring_ops(&registers, ring);
                    self.phase = InitPhase::ConfiguringRing { high, low };
                    (InitAction::AccessRegisters, none_ports, ops)
                } else {
                    (InitAction::ReadConfig, none_ports, none_mmio)
                }
            },
            InitPhase::ConfiguringRing { high, low } => {
                self.phase = InitPhase::Finished;
                (InitAction::Succeeded { mac_high: high, mac_low: low }, none_ports, none_mmio)
            },
            InitPhase::Finished => (InitAction::ReadConfig, none_ports, none_mmio),
        }
    }
}

/// Every bring-up ends: each step moves it further along, and it does not
/// go on once finished.
pub proof fn lemma_init_step_makes_progress(s: InitSession, event: InitEvent)
    requires
        expects(s, event),
    ensures
        position(transition(s, event).0.phase) > position(s.phase),
{
}

/// The reset is requested only once the controller is quiet: the reset bit
/// is written only after the command register was checked, the registers
/// mapped, interrupts masked, receive and transmit stopped and 10 ms spent,
/// with the control register as read just before; and the controller
/// comes up only after the reset bit cleared and the receive ring was set.
pub proof fn lemma_reset_follows_quiesce(s: InitSession, event: InitEvent)
    requires
        expects(s, event),
    ensures
        transition(s, event).0.phase is RequestingReset ==> (s.phase is ReadingControl && (event
            matches InitEvent::Value(ctrl) && transition(s, event).2.last() == (PortOp::WriteU32 {
            port: (s.phase->ReadingControl_io_bar.base + 4) as u16,
            value: ctrl | CTRL_RST,
        }))),
        transition(s, event).1 is Succeeded ==> s.phase is ConfiguringRing,
        transition(s, event).0.phase is Finishing ==> (event matches InitEvent::Value(ctrl) && ctrl
            & CTRL_RST == 0),
{
}

} // verus!
