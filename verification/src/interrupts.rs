use vstd::prelude::*;

verus! {

/// Vector of the first hardware interrupt (IRQ 0) on the primary PIC.
pub const PIC_1_OFFSET: u8 = 32;

/// Vector of the first hardware interrupt (IRQ 8) on the secondary PIC.
pub const PIC_2_OFFSET: u8 = PIC_1_OFFSET + 8;

/// Vector of the software interrupt that user programs issue for a syscall.
pub const SYSCALL_VECTOR: u8 = 0x80;

/// The hardware interrupts the kernel handles, numbered from [`PIC_1_OFFSET`].
#[derive(Debug, Clone, Copy, PartialEq, Eq, Structural)]
pub enum InterruptIndex {
    Timer,
    Keyboard,
}

impl InterruptIndex {
    /// The interrupt vector of this interrupt.
    pub open spec fn vector(self) -> u8 {
        match self {
            InterruptIndex::Timer => PIC_1_OFFSET,
            InterruptIndex::Keyboard => (PIC_1_OFFSET + 1) as u8,
        }
    }

    /// The interrupt vector of this interrupt.
    pub fn as_u8(self) -> (r: u8)
        ensures
            r == self.vector(),
    {
        match self {
            InterruptIndex::Timer => PIC_1_OFFSET,
            InterruptIndex::Keyboard => PIC_1_OFFSET + 1,
        }
    }

    /// The interrupt vector of this interrupt, as an index into the IDT.
    pub fn as_usize(self) -> (r: usize)
        ensures
            r == self.vector(),
    {
        self.as_u8() as usize
    }
}

/// The hardware interrupts take consecutive vectors on the primary PIC, apart
/// from the syscall vector.
pub proof fn lemma_vectors_distinct()
    ensures
        InterruptIndex::Timer.vector() == PIC_1_OFFSET,
        InterruptIndex::Keyboard.vector() == PIC_1_OFFSET + 1,
        InterruptIndex::Keyboard.vector() < PIC_2_OFFSET,
        InterruptIndex::Timer.vector() != SYSCALL_VECTOR,
        InterruptIndex::Keyboard.vector() != SYSCALL_VECTOR,
{
}

} // verus!
