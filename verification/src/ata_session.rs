//! One operation on an IDE channel, step by step: the decisions of the
//! identify, flush, transfer and reset protocols, as a state machine that
//! answers each event (a register read, or the end of writes or of a data
//! move) with the next action.
use crate::ata::{
    command_code, command_status_spec, presence_spec, device_bits, poll_spec, transfer_writes, AtaError, Channel,
    Command, DeviceId, DeviceSignature, DiagnosticCode, Direction, ErrorRegister, PollStep, Status,
    Transfer, WaitCondition, DEVICE_OBSOLETE_BITS, STATUS_POLL_LIMIT,
};
use crate::io::PortOp;
use vstd::prelude::*;

verus! {

/// An operation on a channel.
#[derive(Debug, Clone, Copy, PartialEq, Eq, Structural)]
pub enum Operation {
    /// IDENTIFY DEVICE: the drive's 256 identify words.
    Identify { device: DeviceId },
    /// A cache flush command (FLUSH CACHE or FLUSH CACHE EXT).
    Flush { device: DeviceId, command: Command },
    /// A read or write of a run of sectors, one data request per sector.
    Transfer { device: DeviceId, transfer: Transfer, direction: Direction },
    /// A software reset of the channel.
    SoftwareReset,
}

/// Where an operation stands.
#[derive(Debug, Clone, Copy, PartialEq, Eq, Structural)]
pub enum Phase {
    /// Polling until a drive may be selected.
    SelectPoll,
    /// The drive select was written.
    SelectWritten,
    /// Polling until the drive is idle.
    IdlePoll,
    /// The command was written.
    CommandWritten,
    /// Polling until the drive is not busy after IDENTIFY DEVICE.
    NotBusyPoll,
    /// Waiting for the signature, with the status the drive left.
    SignatureCheck(Status),
    /// Polling for the data request of sector `i` (0 for identify data).
    DataPoll(u32),
    /// The identify words were read.
    IdentifyDataRead,
    /// Sector `i` was moved.
    SectorMoved(u32),
    /// Polling until the drive is idle at the end of the command.
    FinalPoll,
    /// Waiting for the error register, with the status that reported the
    /// error.
    ErrorRead(Status),
    /// The first device control write of a reset was done.
    ResetStarted,
    /// The reset bit was set.
    ResetAsserted,
    /// The reset bit was cleared.
    ResetReleased,
    /// Polling until the reset is over.
    ResetPoll,
    /// Waiting for the diagnostic code.
    DiagnosticCheck,
    /// The operation is over.
    Finished,
}

/// What the caller reports.
#[derive(Debug, Clone, Copy, PartialEq, Eq, Structural)]
pub enum Event {
    /// The alternate status register, as read.
    Status(Status),
    /// The error register, as read.
    Error(ErrorRegister),
    /// The device signature, as read.
    Signature(DeviceSignature),
    /// The diagnostic code, as read.
    Diagnostic(DiagnosticCode),
    /// The requested writes (and the wait after them) or data move are
    /// done.
    Completed,
}

/// How long to wait after writes.
#[derive(Debug, Clone, Copy, PartialEq, Eq, Structural)]
pub enum Delay {
    /// 400 ns (four alternate status reads).
    Ns400,
    /// 5 microseconds.
    Us5,
    /// 2 milliseconds.
    Ms2,
}

/// What the caller does next.
#[derive(Debug, Clone, Copy, PartialEq, Eq, Structural)]
pub enum Action {
    /// Read the alternate status register and report it.
    ReadStatus,
    /// Carry out the port writes that come with the action, wait, and
    /// report [`Event::Completed`].
    Write(Delay),
    /// Read the error register and report it.
    ReadError,
    /// Read the device signature and report it.
    ReadSignature,
    /// Read the diagnostic code and report it.
    ReadDiagnostic,
    /// Read the 256 identify words from the data register and report
    /// [`Event::Completed`].
    ReadIdentifyData,
    /// Move sector `i` of the transfer through the data register (one
    /// sector's words, in the transfer's direction) and report
    /// [`Event::Completed`].
    MoveSector(u32),
    /// The operation is over and succeeded.
    Succeeded,
    /// The operation is over and failed.
    Failed(AtaError),
}

/// An operation in progress: what it is, where it stands, and how many
/// status reads the current wait has checked.
#[derive(Debug, Clone, Copy, PartialEq, Eq, Structural)]
pub struct Session {
    pub operation: Operation,
    pub phase: Phase,
    pub polls: usize,
}

/// The drive an operation addresses (none for a reset).
pub open spec fn device_of(op: Operation) -> DeviceId {
    match op {
        Operation::Identify { device } => device,
        Operation::Flush { device, .. } => device,
        Operation::Transfer { device, .. } => device,
        Operation::SoftwareReset => DeviceId::Master,
    }
}

/// The number of data requests an operation has: 1 for identify, one per
/// sector for a transfer.
pub open spec fn data_requests(op: Operation) -> int {
    match op {
        Operation::Identify { .. } => 1,
        Operation::Transfer { transfer, .. } => transfer.sectors(),
        _ => 0,
    }
}

/// The write that selects `device`.
pub open spec fn select_write(ch: &Channel, device: DeviceId) -> PortOp {
    PortOp::WriteU8 { port: ch.spec_command().port(6), value: DEVICE_OBSOLETE_BITS | device_bits(device) }
}

/// The writes that issue an operation's command to the idle drive.
pub open spec fn command_writes(ch: &Channel, op: Operation) -> Seq<PortOp> {
    match op {
        Operation::Identify { .. } => seq![
            PortOp::WriteU8 { port: ch.spec_command().port(2), value: 0 },
            PortOp::WriteU8 { port: ch.spec_command().port(3), value: 0 },
            PortOp::WriteU8 { port: ch.spec_command().port(4), value: 0 },
            PortOp::WriteU8 { port: ch.spec_command().port(5), value: 0 },
            PortOp::WriteU8 { port: ch.spec_command().port(7), value: 0xEC },
        ],
        Operation::Flush { command, .. } => seq![
            PortOp::WriteU8 { port: ch.spec_command().port(7), value: command_code(command) },
        ],
        Operation::Transfer { device, transfer, direction } => transfer_writes(
            ch.spec_command(),
            device,
            transfer,
            direction,
        ),
        Operation::SoftwareReset => Seq::empty(),
    }
}

/// A device control write.
pub open spec fn control_write(ch: &Channel, value: u8) -> PortOp {
    PortOp::WriteU8 { port: ch.spec_control().spec_port(), value }
}

/// The session with another phase and the poll count reset.
pub open spec fn moved(s: Session, phase: Phase) -> Session {
    Session { operation: s.operation, phase, polls: 0 }
}

/// The action that ends an operation with `result`.
pub open spec fn outcome(result: Result<(), AtaError>) -> Action {
    match result {
        Ok(()) => Action::Succeeded,
        Err(e) => Action::Failed(e),
    }
}

/// The end of an operation with `result`.
pub open spec fn finish(s: Session, result: Result<(), AtaError>) -> (Session, Action, Seq<PortOp>) {
    (moved(s, Phase::Finished), outcome(result), Seq::empty())
}

/// A poll decision other than ready: fail, read again, or read the error
/// register.
pub open spec fn keep_polling(s: Session, step: PollStep) -> (Session, Action, Seq<PortOp>) {
    match step {
        PollStep::Failed(e) => finish(s, Err(e)),
        PollStep::ReadErrorRegister(status) => (
            moved(s, Phase::ErrorRead(status)),
            Action::ReadError,
            Seq::empty(),
        ),
        _ => (
            Session { operation: s.operation, phase: s.phase, polls: (s.polls + 1) as usize },
            Action::ReadStatus,
            Seq::empty(),
        ),
    }
}

/// The end of a command, given the status the final wait found: a fault
/// fails it, an error fails it once the error register is read, and
/// otherwise it succeeds.
pub open spec fn conclude(s: Session, status: Status) -> (Session, Action, Seq<PortOp>) {
    if status.spec_has_device_fault() {
        finish(s, Err(AtaError::DeviceFault(status)))
    } else if status.spec_has_error() {
        (moved(s, Phase::ErrorRead(status)), Action::ReadError, Seq::empty())
    } else {
        finish(s, Ok(()))
    }
}

/// Reads the status to start a wait in `phase`.
pub open spec fn start_wait(s: Session, phase: Phase) -> (Session, Action, Seq<PortOp>) {
    (moved(s, phase), Action::ReadStatus, Seq::empty())
}

/// The status condition each polling phase waits for.
pub open spec fn wait_condition(phase: Phase) -> WaitCondition {
    match phase {
        Phase::SelectPoll => WaitCondition::DeviceSelectable,
        Phase::NotBusyPoll => WaitCondition::NotBusy,
        Phase::DataPoll(_) => WaitCondition::DataRequest,
        Phase::ResetPoll => WaitCondition::ResetComplete,
        _ => WaitCondition::Idle,
    }
}

/// Whether a phase polls the status.
pub open spec fn is_poll(phase: Phase) -> bool {
    match phase {
        Phase::SelectPoll | Phase::IdlePoll | Phase::NotBusyPoll | Phase::DataPoll(_)
        | Phase::FinalPoll | Phase::ResetPoll => true,
        _ => false,
    }
}

/// Whether the session waits for `event`.
pub open spec fn expects(s: Session, event: Event) -> bool {
    match s.phase {
        Phase::SignatureCheck(_) => event is Signature,
        Phase::ErrorRead(_) => event is Error,
        Phase::DiagnosticCheck => event is Diagnostic,
        Phase::Finished => false,
        _ => if is_poll(s.phase) {
            event is Status
        } else {
            event is Completed
        },
    }
}

/// The next state of a session, the action, and the writes that go with a
/// [`Action::Write`], on an event the session waits for.
pub open spec fn transition(s: Session, ch: &Channel, event: Event) -> (Session, Action, Seq<PortOp>) {
    match event {
        Event::Status(status) => {
            let step = poll_spec(wait_condition(s.phase), status, s.polls as int);
            if step is Ready {
                match s.phase {
                    Phase::SelectPoll => (
                        moved(s, Phase::SelectWritten),
                        Action::Write(Delay::Ns400),
                        seq![select_write(ch, device_of(s.operation))],
                    ),
                    Phase::IdlePoll => (
                        moved(s, Phase::CommandWritten),
                        Action::Write(Delay::Ns400),
                        command_writes(ch, s.operation),
                    ),
                    Phase::NotBusyPoll => (
                        moved(s, Phase::SignatureCheck(status)),
                        Action::ReadSignature,
                        Seq::empty(),
                    ),
                    Phase::DataPoll(i) => if s.operation is Identify {
                        (moved(s, Phase::IdentifyDataRead), Action::ReadIdentifyData, Seq::empty())
                    } else {
                        (moved(s, Phase::SectorMoved(i)), Action::MoveSector(i), Seq::empty())
                    },
                    Phase::ResetPoll => (
                        moved(s, Phase::DiagnosticCheck),
                        Action::ReadDiagnostic,
                        Seq::empty(),
                    ),
                    _ => conclude(s, status),
                }
            } else {
                keep_polling(s, step)
            }
        },
        Event::Completed => match s.phase {
            Phase::SelectWritten => start_wait(s, Phase::IdlePoll),
            Phase::CommandWritten => match s.operation {
                Operation::Identify { .. } => start_wait(s, Phase::NotBusyPoll),
                Operation::Transfer { .. } => start_wait(s, Phase::DataPoll(0)),
                _ => start_wait(s, Phase::FinalPoll),
            },
            Phase::SectorMoved(i) => if i + 1 < data_requests(s.operation) {
                start_wait(s, Phase::DataPoll((i + 1) as u32))
            } else {
                start_wait(s, Phase::FinalPoll)
            },
            Phase::ResetStarted => (
                moved(s, Phase::ResetAsserted),
                Action::Write(Delay::Us5),
                seq![control_write(ch, 6)],
            ),
            Phase::ResetAsserted => (
                moved(s, Phase::ResetReleased),
                Action::Write(Delay::Ms2),
                seq![control_write(ch, 2)],
            ),
            Phase::ResetReleased => start_wait(s, Phase::ResetPoll),
            _ => start_wait(s, Phase::FinalPoll),
        },
        Event::Signature(signature) => match s.phase {
            Phase::SignatureCheck(status) => if signature.spec_raw() != 0 {
                finish(s, Err(AtaError::NotAtaDevice(signature)))
            } else if status.spec_has_device_fault() {
                finish(s, Err(AtaError::DeviceFault(status)))
            } else if status.spec_has_error() {
                (moved(s, Phase::ErrorRead(status)), Action::ReadError, Seq::empty())
            } else if status.spec_data_requested() {
                (moved(s, Phase::IdentifyDataRead), Action::ReadIdentifyData, Seq::empty())
            } else {
                start_wait(s, Phase::DataPoll(0))
            },
            _ => finish(s, Ok(())),
        },
        Event::Error(error) => match s.phase {
            Phase::ErrorRead(status) => finish(s, command_status_spec(status, error)),
            _ => finish(s, Ok(())),
        },
        Event::Diagnostic(code) => if code.spec_raw() == 1 {
            finish(s, Ok(()))
        } else {
            finish(s, Err(AtaError::DiagnosticFailed(code)))
        },
    }
}

/// A session whose phase fits its operation.
pub open spec fn consistent(s: Session) -> bool {
    &&& s.polls <= STATUS_POLL_LIMIT
    &&& s.operation matches Operation::Transfer { transfer, .. } ==> transfer.valid()
    &&& match s.phase {
        Phase::ResetStarted | Phase::ResetAsserted | Phase::ResetReleased | Phase::ResetPoll
        | Phase::DiagnosticCheck => s.operation is SoftwareReset,
        Phase::Finished => true,
        Phase::SignatureCheck(st) => s.operation is Identify && !st.spec_is_zero()
            && !st.spec_is_floating_bus() && !st.spec_device_busy(),
        Phase::NotBusyPoll | Phase::IdentifyDataRead => s.operation is Identify,
        Phase::DataPoll(i) => (s.operation is Identify && i == 0) || (s.operation is Transfer && i
            < data_requests(s.operation)),
        Phase::SectorMoved(i) => s.operation is Transfer && i < data_requests(s.operation),
        Phase::ErrorRead(st) => !(s.operation is SoftwareReset) && st.spec_has_error(),
        _ => !(s.operation is SoftwareReset),
    }
}

/// The position of a phase along its protocol.
pub open spec fn position(phase: Phase) -> int {
    match phase {
        Phase::SelectPoll => 0,
        Phase::SelectWritten => 1,
        Phase::IdlePoll => 2,
        Phase::CommandWritten => 3,
        Phase::NotBusyPoll => 4,
        Phase::SignatureCheck(_) => 5,
        Phase::DataPoll(i) => 6 + 2 * i,
        Phase::SectorMoved(i) => 7 + 2 * i,
        Phase::IdentifyDataRead => 7,
        Phase::FinalPoll => 131080,
        Phase::ErrorRead(_) => 131081,
        Phase::ResetStarted => 0,
        Phase::ResetAsserted => 1,
        Phase::ResetReleased => 2,
        Phase::ResetPoll => 3,
        Phase::DiagnosticCheck => 4,
        Phase::Finished => 131082,
    }
}

/// An upper bound on the events a session still takes.
pub open spec fn budget(s: Session) -> int {
    (131082 - position(s.phase)) * (STATUS_POLL_LIMIT + 2) + if is_poll(s.phase) {
        STATUS_POLL_LIMIT + 1 - s.polls
    } else {
        0
    }
}

/// Starts an operation: the session, its first action and the writes that
/// go with it. A reset begins by writing the device control register with
/// interrupts disabled and waiting 5 us; any other operation by reading the
/// status to wait until a drive may be selected. A transfer must be valid.
pub fn start(channel: &Channel, operation: Operation) -> (r: (Session, Action, Vec<PortOp>))
    requires
        operation matches Operation::Transfer { transfer, .. } ==> transfer.valid(),
    ensures
        consistent(r.0),
        r.0.operation == operation,
        operation is SoftwareReset ==> r.0.phase == Phase::ResetStarted && r.1 == Action::Write(
            Delay::Us5,
        ) && r.2@ == seq![control_write(channel, 2)],
        !(operation is SoftwareReset) ==> r.0.phase == Phase::SelectPoll && r.0.polls == 0 && r.1
            == Action::ReadStatus && r.2@ == Seq::<PortOp>::empty(),
{
    match operation {
        Operation::SoftwareReset => {
            let ops = channel.software_reset();
            let mut first: Vec<PortOp> = Vec::new();
            first.push(ops[0]);
            proof {
                assert(first@ =~= seq![control_write(channel, 2)]);
            }
            (Session { operation, phase: Phase::ResetStarted, polls: 0 }, Action::Write(Delay::Us5), first)
        },
        _ => {
            let none: Vec<PortOp> = Vec::new();
            proof {
                assert(none@ =~= Seq::<PortOp>::empty());
            }
            (Session { operation, phase: Phase::SelectPoll, polls: 0 }, Action::ReadStatus, none)
        },
    }
}

impl Session {
    /// The next state and action on `event`, which must be one the session
    /// waits for.
    pub fn step(&mut self, channel: &Channel, event: Event) -> (r: (Action, Vec<PortOp>))
        requires
            consistent(*old(self)),
            expects(*old(self), event),
        ensures
            (*final(self), r.0, r.1@) == transition(*old(self), channel, event),
    {
        let s = *self;
        let none: Vec<PortOp> = Vec::new();
        proof {
            assert(none@ =~= Seq::<PortOp>::empty());
        }
        match event {
            Event::Status(status) => {
                let condition = match s.phase {
                    Phase::SelectPoll => WaitCondition::DeviceSelectable,
                    Phase::NotBusyPoll => WaitCondition::NotBusy,
                    Phase::DataPoll(_) => WaitCondition::DataRequest,
                    Phase::ResetPoll => WaitCondition::ResetComplete,
                    _ => WaitCondition::Idle,
                };
                let step = Channel::poll(condition, status, s.polls);
                match step {
                    PollStep::Ready(_) => match s.phase {
                        Phase::SelectPoll => {
                            *self = Session { operation: s.operation, phase: Phase::SelectWritten, polls: 0 };
                            let device = match s.operation {
                                Operation::Identify { device } => device,
                                Operation::Flush { device, .. } => device,
                                Operation::Transfer { device, .. } => device,
                                Operation::SoftwareReset => DeviceId::Master,
                            };
                            let mut ops: Vec<PortOp> = Vec::new();
                            ops.push(channel.select_device(device));
                            proof {
                                assert(ops@ =~= seq![select_write(channel, device_of(s.operation))]);
                            }
                            (Action::Write(Delay::Ns400), ops)
                        },
                        Phase::IdlePoll => {
                            *self = Session { operation: s.operation, phase: Phase::CommandWritten, polls: 0 };
                            let ops = match s.operation {
                                Operation::Identify { .. } => channel.identify(),
                                Operation::Flush { command, .. } => {
                                    let mut ops: Vec<PortOp> = Vec::new();
                                    ops.push(channel.write_command(command));
                                    proof {
                                        assert(ops@ =~= command_writes(channel, s.operation));
                                    }
                                    ops
                                },
                                Operation::Transfer { device, transfer, direction } => {
                                    channel.start_transfer(device, transfer, direction)
                                },
                                Operation::SoftwareReset => none,
                            };
                            (Action::Write(Delay::Ns400), ops)
                        },
                        Phase::NotBusyPoll => {
                            *self = Session {
                                operation: s.operation,
                                phase: Phase::SignatureCheck(status),
                                polls: 0,
                            };
                            (Action::ReadSignature, none)
                        },
                        Phase::DataPoll(i) => {
                            if let Operation::Identify { .. } = s.operation {
                                *self = Session {
                                    operation: s.operation,
                                    phase: Phase::IdentifyDataRead,
                                    polls: 0,
                                };
                                (Action::ReadIdentifyData, none)
                            } else {
                                *self = Session {
                                    operation: s.operation,
                                    phase: Phase::SectorMoved(i),
                                    polls: 0,
                                };
                                (Action::MoveSector(i), none)
                            }
                        },
                        Phase::ResetPoll => {
                            *self = Session { operation: s.operation, phase: Phase::DiagnosticCheck, polls: 0 };
                            (Action::ReadDiagnostic, none)
                        },
                        _ => Self::conclude(self, status, none),
                    },
                    PollStep::Failed(e) => {
                        *self = Session { operation: s.operation, phase: Phase::Finished, polls: 0 };
                        (Action::Failed(e), none)
                    },
                    PollStep::ReadErrorRegister(st) => {
                        *self = Session { operation: s.operation, phase: Phase::ErrorRead(st), polls: 0 };
                        (Action::ReadError, none)
                    },
                    PollStep::Again => {
                        *self = Session { operation: s.operation, phase: s.phase, polls: s.polls + 1 };
                        (Action::ReadStatus, none)
                    },
                }
            },
            Event::Completed => {
                let phase = match s.phase {
                    Phase::SelectWritten => Phase::IdlePoll,
                    Phase::CommandWritten => match s.operation {
                        Operation::Identify { .. } => Phase::NotBusyPoll,
                        Operation::Transfer { .. } => Phase::DataPoll(0),
                        _ => Phase::FinalPoll,
                    },
                    Phase::SectorMoved(i) => {
                        let sectors: u32 = match s.operation {
                            Operation::Transfer { transfer, .. } => match transfer {
                                Transfer::Lba28 { sector_count, .. } => sector_count as u32,
                                Transfer::Lba48 { sector_count, .. } => sector_count,
                            },
                            _ => 0,
                        };
                        if i + 1 < sectors {
                            Phase::DataPoll(i + 1)
                        } else {
                            Phase::FinalPoll
                        }
                    },
                    Phase::ResetStarted => Phase::ResetAsserted,
                    Phase::ResetAsserted => Phase::ResetReleased,
                    Phase::ResetReleased => Phase::ResetPoll,
                    _ => Phase::FinalPoll,
                };
                *self = Session { operation: s.operation, phase, polls: 0 };
                match s.phase {
                    Phase::ResetStarted => {
                        let ops = channel.software_reset();
                        let mut next: Vec<PortOp> = Vec::new();
                        next.push(ops[1]);
                        proof {
                            assert(next@ =~= seq![control_write(channel, 6)]);
                        }
                        (Action::Write(Delay::Us5), next)
                    },
                    Phase::ResetAsserted => {
                        let ops = channel.software_reset();
                        let mut next: Vec<PortOp> = Vec::new();
                        next.push(ops[2]);
                        proof {
                            assert(next@ =~= seq![control_write(channel, 2)]);
                        }
                        (Action::Write(Delay::Ms2), next)
                    },
                    _ => (Action::ReadStatus, none),
                }
            },
            Event::Signature(signature) => {
                let status = match s.phase {
                    Phase::SignatureCheck(status) => status,
                    _ => Status::from_raw(0),
                };
                if let Err(e) = Channel::check_signature(signature) {
                    *self = Session { operation: s.operation, phase: Phase::Finished, polls: 0 };
                    return (Action::Failed(e), none);
                }
                if status.has_device_fault() {
                    *self = Session { operation: s.operation, phase: Phase::Finished, polls: 0 };
                    return (Action::Failed(AtaError::DeviceFault(status)), none);
                }
                if status.has_error() {
                    *self = Session { operation: s.operation, phase: Phase::ErrorRead(status), polls: 0 };
                    return (Action::ReadError, none);
                }
                if status.data_requested() {
                    *self = Session { operation: s.operation, phase: Phase::IdentifyDataRead, polls: 0 };
                    return (Action::ReadIdentifyData, none);
                }
                *self = Session { operation: s.operation, phase: Phase::DataPoll(0), polls: 0 };
                (Action::ReadStatus, none)
            },
            Event::Error(error) => {
                let status = match s.phase {
                    Phase::ErrorRead(status) => status,
                    _ => Status::from_raw(0),
                };
                *self = Session { operation: s.operation, phase: Phase::Finished, polls: 0 };
                match Channel::validate_command_status(status, error) {
                    Ok(()) => (Action::Succeeded, none),
                    Err(e) => (Action::Failed(e), none),
                }
            },
            Event::Diagnostic(code) => {
                *self = Session { operation: s.operation, phase: Phase::Finished, polls: 0 };
                match Channel::check_diagnostic(code) {
                    Ok(()) => (Action::Succeeded, none),
                    Err(e) => (Action::Failed(e), none),
                }
            },
        }
    }

    fn conclude(&mut self, status: Status, none: Vec<PortOp>) -> (r: (Action, Vec<PortOp>))
        requires
            none@ == Seq::<PortOp>::empty(),
        ensures
            (*final(self), r.0, r.1@) == conclude(*old(self), status),
    {
        let s = *self;
        if status.has_device_fault() {
            *self = Session { operation: s.operation, phase: Phase::Finished, polls: 0 };
            return (Action::Failed(AtaError::DeviceFault(status)), none);
        }
        if status.has_error() {
            *self = Session { operation: s.operation, phase: Phase::ErrorRead(status), polls: 0 };
            return (Action::ReadError, none);
        }
        *self = Session { operation: s.operation, phase: Phase::Finished, polls: 0 };
        (Action::Succeeded, none)
    }
}

/// Every step keeps a session's phase fitting its operation.
pub proof fn lemma_step_keeps_consistent(s: Session, ch: &Channel, event: Event)
    requires
        consistent(s),
        expects(s, event),
    ensures
        consistent(transition(s, ch, event).0),
{
}

/// Every session ends: each step either finishes the operation or lowers
/// [`budget`], which is never negative. A wait gives up after
/// [`STATUS_POLL_LIMIT`] status reads.
pub proof fn lemma_step_makes_progress(s: Session, ch: &Channel, event: Event)
    requires
        consistent(s),
        expects(s, event),
    ensures
        budget(s) >= 0,
        transition(s, ch, event).0.phase == Phase::Finished || budget(transition(s, ch, event).0)
            < budget(s),
{
}

/// A status of a present drive, not busy, without fault or error, that
/// requests data.
pub open spec fn data_ready(status: Status) -> bool {
    &&& !status.spec_is_zero()
    &&& !status.spec_is_floating_bus()
    &&& !status.spec_device_busy()
    &&& status.spec_data_requested()
    &&& !status.spec_has_error()
    &&& !status.spec_has_device_fault()
}

/// Data moves only on a data request: a sector is moved, or the identify
/// words read, only when the drive's status is present, not busy, without
/// fault or error, and requests data.
pub proof fn lemma_data_moves_on_request(s: Session, ch: &Channel, event: Event)
    requires
        consistent(s),
        expects(s, event),
        transition(s, ch, event).1 is MoveSector || transition(s, ch, event).1 is ReadIdentifyData,
    ensures
        match event {
            Event::Status(st) => data_ready(st),
            _ => s.phase matches Phase::SignatureCheck(st) && data_ready(st),
        },
        transition(s, ch, event).1 matches Action::MoveSector(i) ==> s.phase == Phase::DataPoll(i)
            && i < data_requests(s.operation),
{
    if let Event::Status(st) = event {
        assert(poll_spec(WaitCondition::DataRequest, st, s.polls as int) is Ready);
        assert(presence_spec(st) is Ok);
    }
}

/// Commands go only to an idle drive: the command writes are issued only
/// when a status read shows a present drive that is neither busy nor
/// requesting data.
pub proof fn lemma_commands_wait_for_idle(s: Session, ch: &Channel, event: Event)
    requires
        consistent(s),
        expects(s, event),
        s.phase == Phase::IdlePoll,
        transition(s, ch, event).1 is Write,
    ensures
        event matches Event::Status(st) && !st.spec_is_zero() && !st.spec_is_floating_bus()
            && !st.spec_device_busy() && !st.spec_data_requested(),
        transition(s, ch, event).2 == command_writes(ch, s.operation),
{
}

/// How many sectors of a transfer have been moved, as its phase shows:
/// all of them once the final wait or the error read is reached.
pub open spec fn sectors_moved(s: Session) -> int {
    match s.phase {
        Phase::DataPoll(i) => i as int,
        Phase::SectorMoved(i) => i + 1,
        Phase::FinalPoll | Phase::ErrorRead(_) => data_requests(s.operation),
        _ => 0,
    }
}

/// A transfer moves its sectors one at a time, in order, and succeeds
/// only once all are moved: a step that moves sector `i` does so when
/// exactly `i` sectors were moved before; a step that ends in success
/// comes after all sectors; any other step that keeps the transfer going
/// without an error read leaves the count unchanged.
pub proof fn lemma_transfer_moves_sectors_in_order(s: Session, ch: &Channel, event: Event)
    requires
        consistent(s),
        expects(s, event),
        s.operation is Transfer,
    ensures
        ({
            let (next, action, _) = transition(s, ch, event);
            &&& action matches Action::MoveSector(i) ==> i == sectors_moved(s) && sectors_moved(next)
                == sectors_moved(s) + 1
            &&& action is Succeeded ==> sectors_moved(s) == data_requests(s.operation)
            &&& !(action is MoveSector) && next.phase != Phase::Finished && !(next.phase is ErrorRead)
                ==> sectors_moved(next) == sectors_moved(s)
        }),
{
}

} // verus!
