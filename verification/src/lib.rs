//! A minimal x86-64 kernel's core: heap allocators, kernel-thread and async
//! task scheduling, runtime counters, and the syscall and interrupt tables.

use vstd::prelude::*;

pub mod allocator;
pub mod interrupts;
pub mod logger;
pub mod process;
pub mod scheduler;
pub mod task;
pub mod thread;
pub mod userland;

verus! {

/// What a test run reports to QEMU through its exit device.
#[derive(Debug, Clone, Copy, PartialEq, Eq, Structural)]
pub enum QemuExitCode {
    Success,
    Failed,
}

impl QemuExitCode {
    /// The value written to the exit device.
    pub open spec fn spec_code(self) -> u32 {
        match self {
            QemuExitCode::Success => 0x10,
            QemuExitCode::Failed => 0x11,
        }
    }

    /// The value written to the exit device; QEMU exits with `(code << 1) | 1`.
    pub fn as_u32(self) -> (r: u32)
        ensures
            r == self.spec_code(),
    {
        match self {
            QemuExitCode::Success => 0x10,
            QemuExitCode::Failed => 0x11,
        }
    }
}

} // verus!
