//! Exit status codes reported to the hosting virtual-machine test
//! environment through its exit signal port.

use vstd::prelude::*;

verus! {

/// Status of a whole test run, reported once to the host environment.
///
/// The host consumes the matching 32-bit code (see [`QemuExitCode::code`])
/// from a fixed hardware I/O port and halts the virtual machine.
#[derive(Debug, Clone, Copy, PartialEq, Eq, Structural)]
pub enum QemuExitCode {
    Success,
    Failed,
}

/// The 32-bit wire code for an exit status: 0x10 for success, 0x11 for
/// failure.
pub open spec fn spec_code(c: QemuExitCode) -> u32 {
    match c {
        QemuExitCode::Success => 0x10,
        QemuExitCode::Failed => 0x11,
    }
}

impl QemuExitCode {
    /// The 32-bit value written to the exit signal port for this status.
    pub fn code(self) -> (r: u32)
        ensures
            r == spec_code(self),
    {
        match self {
            QemuExitCode::Success => 0x10,
            QemuExitCode::Failed => 0x11,
        }
    }
}

} // verus!
