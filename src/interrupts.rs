//! Interrupt vector numbers of the two remapped interrupt controllers.
use vstd::prelude::*;

verus! {

/// First vector of the primary interrupt controller (IRQ 0 to 7).
pub const PIC_1_OFFSET: u8 = 32;

/// First vector of the secondary interrupt controller (IRQ 8 to 15).
pub const PIC_2_OFFSET: u8 = 40;

/// The hardware interrupts the kernel handles.
#[derive(Clone, Copy, Debug, PartialEq, Eq, Structural)]
pub enum InterruptIndex {
    /// IRQ 0, the programmable interval timer.
    Timer,
    /// IRQ 1, the PS/2 keyboard.
    Keyboard,
}

/// The vector of an interrupt: its IRQ line after the primary controller's offset.
pub open spec fn vector(i: InterruptIndex) -> u8 {
    match i {
        InterruptIndex::Timer => PIC_1_OFFSET,
        InterruptIndex::Keyboard => (PIC_1_OFFSET + 1) as u8,
    }
}

impl InterruptIndex {
    /// The interrupt's vector number.
    pub fn as_u8(self) -> (r: u8)
        ensures
            r == vector(self),
    {
        match self {
            InterruptIndex::Timer => PIC_1_OFFSET,
            InterruptIndex::Keyboard => PIC_1_OFFSET + 1,
        }
    }

    /// The interrupt's vector number, as an index into the descriptor table.
    pub fn as_usize(self) -> (r: usize)
        ensures
            r == vector(self) as usize,
    {
        self.as_u8() as usize
    }
}

} // verus!
