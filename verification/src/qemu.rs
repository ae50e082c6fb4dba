//! Leaving QEMU from a test kernel through its debug exit device.
use crate::io::PortOp;
use vstd::prelude::*;

verus! {

/// The port of QEMU's `isa-debug-exit` device.
pub const ISA_DEBUG_EXIT_PORT: u16 = 0xf4;

/// How a test kernel ends. The codes stay clear of QEMU's own exit codes.
#[derive(Debug, Clone, Copy, PartialEq, Eq, Structural)]
pub enum QemuExitCode {
    Success,
    Failure,
}

impl QemuExitCode {
    /// The code written to the exit device: 0x10 for success, 0x11 for
    /// failure.
    pub fn value(self) -> (r: u32)
        ensures
            r == match self {
                QemuExitCode::Success => 0x10u32,
                QemuExitCode::Failure => 0x11u32,
            },
    {
        match self {
            QemuExitCode::Success => 0x10,
            QemuExitCode::Failure => 0x11,
        }
    }
}

/// The port write that makes QEMU exit with `exit_code`.
pub fn exit_qemu(exit_code: QemuExitCode) -> (r: PortOp)
    ensures
        r == (PortOp::WriteU32 {
            port: ISA_DEBUG_EXIT_PORT,
            value: match exit_code {
                QemuExitCode::Success => 0x10u32,
                QemuExitCode::Failure => 0x11u32,
            },
        }),
{
    PortOp::WriteU32 { port: ISA_DEBUG_EXIT_PORT, value: exit_code.value() }
}

} // verus!
