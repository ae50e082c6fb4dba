//! System calls: their numbers, the register frame of a user program, and
//! the kernel's decision on each call.
use crate::input::InputState;
use crate::time::Duration;
use vstd::prelude::*;
use vstd::std_specs::convert::TryFromSpecImpl;

verus! {

/// The interrupt vector of the system call gate.
pub const SYSCALL_INTERRUPT_VECTOR: u8 = 0x80;

/// The system calls, by the number a program passes in `rax`.
#[derive(Debug, Clone, Copy, PartialEq, Eq, Structural)]
pub enum SyscallNumber {
    Exit,
    Yield,
    SleepUntil,
    TimeNow,
    InputState,
    DebugLogByte,
}

/// The number of a system call.
pub open spec fn syscall_number_value(n: SyscallNumber) -> u64 {
    match n {
        SyscallNumber::Exit => 0u64,
        SyscallNumber::Yield => 1u64,
        SyscallNumber::SleepUntil => 2u64,
        SyscallNumber::TimeNow => 3u64,
        SyscallNumber::InputState => 4u64,
        SyscallNumber::DebugLogByte => 5u64,
    }
}

/// The system call a number names, if any.
pub open spec fn syscall_of(number: u64) -> Result<SyscallNumber, UnknownSyscallNumber> {
    if number == 0 {
        Ok(SyscallNumber::Exit)
    } else if number == 1 {
        Ok(SyscallNumber::Yield)
    } else if number == 2 {
        Ok(SyscallNumber::SleepUntil)
    } else if number == 3 {
        Ok(SyscallNumber::TimeNow)
    } else if number == 4 {
        Ok(SyscallNumber::InputState)
    } else if number == 5 {
        Ok(SyscallNumber::DebugLogByte)
    } else {
        Err(UnknownSyscallNumber(number))
    }
}

impl SyscallNumber {
    /// The number passed in `rax`.
    pub fn value(self) -> (r: u64)
        ensures
            r == syscall_number_value(self),
    {
        match self {
            SyscallNumber::Exit => 0,
            SyscallNumber::Yield => 1,
            SyscallNumber::SleepUntil => 2,
            SyscallNumber::TimeNow => 3,
            SyscallNumber::InputState => 4,
            SyscallNumber::DebugLogByte => 5,
        }
    }
}

/// A number that names no system call.
#[derive(Debug, Clone, Copy, PartialEq, Eq, Structural)]
pub struct UnknownSyscallNumber(pub u64);

impl UnknownSyscallNumber {
    pub fn raw(self) -> (r: u64)
        ensures
            r == self.0,
    {
        self.0
    }
}

impl TryFrom<u64> for SyscallNumber {
    type Error = UnknownSyscallNumber;

    fn try_from(number: u64) -> (r: Result<Self, Self::Error>) {
        match number {
            0 => Ok(Self::Exit),
            1 => Ok(Self::Yield),
            2 => Ok(Self::SleepUntil),
            3 => Ok(Self::TimeNow),
            4 => Ok(Self::InputState),
            5 => Ok(Self::DebugLogByte),
            number => Err(UnknownSyscallNumber(number)),
        }
    }
}

impl TryFromSpecImpl<u64> for SyscallNumber {
    open spec fn obeys_try_from_spec() -> bool {
        true
    }

    open spec fn try_from_spec(number: u64) -> Result<Self, UnknownSyscallNumber> {
        syscall_of(number)
    }
}

/// Decoding a system call's number gives the call back.
pub proof fn lemma_syscall_number_round_trip(n: SyscallNumber)
    ensures
        syscall_of(syscall_number_value(n)) == Ok::<SyscallNumber, UnknownSyscallNumber>(n),
{
}

/// The registers of a user program, as its interrupt frame saves them.
#[derive(Debug, Clone, Copy, PartialEq, Eq, Structural)]
pub struct UserContext {
    pub r15: u64,
    pub r14: u64,
    pub r13: u64,
    pub r12: u64,
    pub r11: u64,
    pub r10: u64,
    pub r9: u64,
    pub r8: u64,
    pub rdi: u64,
    pub rsi: u64,
    pub rbp: u64,
    pub rdx: u64,
    pub rcx: u64,
    pub rbx: u64,
    pub rax: u64,
    pub instruction_pointer: u64,
    pub code_segment: u64,
    pub flags: u64,
    pub stack_pointer: u64,
    pub stack_segment: u64,
}

/// Bit 1 of RFLAGS, which is always set.
pub const RFLAGS_RESERVED_BIT: u64 = 0x2;

/// RFLAGS bit 9: interrupts enabled.
pub const RFLAGS_INTERRUPT_FLAG: u64 = 0x200;

impl UserContext {
    /// A program about to start at `entry_point` with stack pointer
    /// `stack_pointer`, in the user code and data segments given by their
    /// selectors, with interrupts enabled and every other register zero.
    pub fn new(entry_point: u64, stack_pointer: u64, code_selector: u16, data_selector: u16) -> (r:
        Self)
        ensures
            r == (UserContext {
                r15: 0,
                r14: 0,
                r13: 0,
                r12: 0,
                r11: 0,
                r10: 0,
                r9: 0,
                r8: 0,
                rdi: 0,
                rsi: 0,
                rbp: 0,
                rdx: 0,
                rcx: 0,
                rbx: 0,
                rax: 0,
                instruction_pointer: entry_point,
                code_segment: code_selector as u64,
                flags: 0x202,
                stack_pointer,
                stack_segment: data_selector as u64,
            }),
    {
        assert(0x2u64 | 0x200u64 == 0x202u64) by (bit_vector);
        Self {
            r15: 0,
            r14: 0,
            r13: 0,
            r12: 0,
            r11: 0,
            r10: 0,
            r9: 0,
            r8: 0,
            rdi: 0,
            rsi: 0,
            rbp: 0,
            rdx: 0,
            rcx: 0,
            rbx: 0,
            rax: 0,
            instruction_pointer: entry_point,
            code_segment: code_selector as u64,
            flags: RFLAGS_RESERVED_BIT | RFLAGS_INTERRUPT_FLAG,
            stack_pointer,
            stack_segment: data_selector as u64,
        }
    }
}

/// A system call that the kernel finishes outside the interrupt handler.
#[derive(Debug, Clone, Copy, PartialEq, Eq, Structural)]
pub enum KernelSyscall {
    Yield,
    SleepUntil(Duration),
}

/// Where the interrupt handler goes after a system call.
#[derive(Debug, Clone, Copy, PartialEq, Eq, Structural)]
pub enum SyscallDisposition {
    /// Return straight to the program.
    ReturnToUser,
    /// Enter the kernel loop, which finishes the call.
    EnterKernel,
}

/// The handler's decision on a system call: where to go, and the byte to
/// log for DebugLogByte.
#[derive(Debug, Clone, Copy, PartialEq, Eq, Structural)]
pub struct SyscallOutcome {
    pub disposition: SyscallDisposition,
    pub log_byte: Option<u8>,
}

/// Whether a frame holds a call the interrupt handler answers: a call from
/// ring 3 with a known number other than Exit (the handler stops the kernel
/// on the others).
pub open spec fn dispatchable(frame: UserContext) -> bool {
    &&& frame.code_segment & 3 == 3
    &&& 1 <= frame.rax <= 5
}

/// Answers a system call in the interrupt handler, given the current time
/// and the current input state. Yield and a sleep that is not over enter
/// the kernel loop; the others return to the program with their result in
/// `rax` (and, for InputState, `rdx` and `rcx`).
pub fn dispatch(frame: &mut UserContext, now: Duration, input: InputState) -> (r: SyscallOutcome)
    requires
        dispatchable(*old(frame)),
    ensures
        ({
            let f = *old(frame);
            match syscall_of(f.rax) {
                Ok(SyscallNumber::Yield) => *final(frame) == f && r == (SyscallOutcome {
                    disposition: SyscallDisposition::EnterKernel,
                    log_byte: None,
                }),
                Ok(SyscallNumber::SleepUntil) => if f.rdi <= now.nanos() {
                    *final(frame) == (UserContext { rax: 0, ..f }) && r == (SyscallOutcome {
                        disposition: SyscallDisposition::ReturnToUser,
                        log_byte: None,
                    })
                } else {
                    *final(frame) == f && r == (SyscallOutcome {
                        disposition: SyscallDisposition::EnterKernel,
                        log_byte: None,
                    })
                },
                Ok(SyscallNumber::TimeNow) => *final(frame) == (UserContext {
                    rax: if now.nanos() > u64::MAX {
                        u64::MAX
                    } else {
                        now.nanos() as u64
                    },
                    ..f
                }) && r == (SyscallOutcome {
                    disposition: SyscallDisposition::ReturnToUser,
                    log_byte: None,
                }),
                Ok(SyscallNumber::InputState) => *final(frame) == (UserContext {
                    rax: input.spec_keyboard().spec_words()[0],
                    rdx: input.spec_keyboard().spec_words()[1],
                    rcx: input.spec_mouse().spec_word(),
                    ..f
                }) && r == (SyscallOutcome {
                    disposition: SyscallDisposition::ReturnToUser,
                    log_byte: None,
                }),
                _ => *final(frame) == (UserContext { rax: 0, ..f }) && r == (SyscallOutcome {
                    disposition: SyscallDisposition::ReturnToUser,
                    log_byte: Some(f.rdi as u8),
                }),
            }
        }),
{
    let number = SyscallNumber::try_from(frame.rax);
    match number {
        Ok(SyscallNumber::Yield) => SyscallOutcome {
            disposition: SyscallDisposition::EnterKernel,
            log_byte: None,
        },
        Ok(SyscallNumber::SleepUntil) => {
            let deadline = Duration::from_nanos(frame.rdi);
            if deadline.le(now) {
                frame.rax = 0;
                SyscallOutcome { disposition: SyscallDisposition::ReturnToUser, log_byte: None }
            } else {
                SyscallOutcome { disposition: SyscallDisposition::EnterKernel, log_byte: None }
            }
        },
        Ok(SyscallNumber::TimeNow) => {
            frame.rax = now.as_nanos_saturated();
            SyscallOutcome { disposition: SyscallDisposition::ReturnToUser, log_byte: None }
        },
        Ok(SyscallNumber::InputState) => {
            let words = input.keyboard().words();
            frame.rax = words[0];
            frame.rdx = words[1];
            frame.rcx = input.mouse().word();
            SyscallOutcome { disposition: SyscallDisposition::ReturnToUser, log_byte: None }
        },
        _ => {
            let byte = frame.rdi as u8;
            frame.rax = 0;
            SyscallOutcome { disposition: SyscallDisposition::ReturnToUser, log_byte: Some(byte) }
        },
    }
}

/// Finishes a call that entered the kernel loop: Yield returns 0 and
/// SleepUntil returns 1 (the program slept), both once the program runs
/// again.
pub fn prepare_kernel_syscall(context: &mut UserContext) -> (r: KernelSyscall)
    requires
        old(context).rax == 1 || old(context).rax == 2,
    ensures
        old(context).rax == 1 ==> r == KernelSyscall::Yield && *final(context) == (UserContext {
            rax: 0,
            ..*old(context)
        }),
        old(context).rax == 2 ==> ({
            &&& r matches KernelSyscall::SleepUntil(d) && d.nanos() == old(context).rdi
            &&& *final(context) == (UserContext { rax: 1, ..*old(context) })
        }),
{
    if context.rax == 1 {
        context.rax = 0;
        KernelSyscall::Yield
    } else {
        let deadline = Duration::from_nanos(context.rdi);
        context.rax = 1;
        KernelSyscall::SleepUntil(deadline)
    }
}

} // verus!
