//! Fusarium: the verified core of a small hobby kernel for x86_64 and the
//! ARMv6 Raspberry Pi Zero W.
//!
//! The library holds what the kernel computes: mailbox words, framebuffer
//! painting, the VGA text history, register values, address translation and
//! the heap page range. Reading and writing hardware stays with the caller.

pub mod allocator;
pub mod armv6a;

use vstd::prelude::*;

verus! {

/// Exit status reported to QEMU through its debug exit device.
#[derive(Debug, Clone, Copy, PartialEq, Eq, Structural)]
pub enum QemuExitCode {
    Success,
    Failed,
}

/// The number QEMU receives for an exit status.
pub open spec fn exit_code_value(code: QemuExitCode) -> u32 {
    match code {
        QemuExitCode::Success => 0x10,
        QemuExitCode::Failed => 0x11,
    }
}

impl QemuExitCode {
    /// The number written to the debug exit port.
    pub fn value(self) -> (v: u32)
        ensures
            v == exit_code_value(self),
    {
        match self {
            QemuExitCode::Success => 0x10,
            QemuExitCode::Failed => 0x11,
        }
    }
}

} // verus!
