//! Core runtime of a small x86_64 kernel: heap allocator strategies, frame
//! allocation and page-table walking, the cooperative executor's scheduling
//! decisions, the keyboard scancode queue and the VGA text writer.
//!
//! Addresses and sizes are `u64`: the kernel targets x86_64 only.
use vstd::prelude::*;

pub mod allocator;
pub mod interrupts;
pub mod memory;
pub mod task;
pub mod vga_buffer;

verus! {

/// The exit codes for QEMU's `isa-debug-exit` device.
#[derive(Clone, Copy, Debug, PartialEq, Eq, Structural)]
pub enum QemuExitCode {
    Success,
    Failed,
}

impl QemuExitCode {
    /// The value written to the device's port: 0x10 for success, 0x11 for
    /// failure.
    pub fn as_u32(self) -> (r: u32)
        ensures
            r == (match self {
                QemuExitCode::Success => 0x10u32,
                QemuExitCode::Failed => 0x11u32,
            }),
    {
        match self {
            QemuExitCode::Success => 0x10,
            QemuExitCode::Failed => 0x11,
        }
    }
}

/// The I/O port of QEMU's `isa-debug-exit` device.
pub const QEMU_EXIT_PORT: u16 = 0xf4;

} // verus!
