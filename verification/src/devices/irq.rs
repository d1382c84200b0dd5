use vstd::prelude::*;

verus! {

pub const VBLANK: u16 = 0x1;
pub const GPU: u16 = 0x2;
pub const CDROM: u16 = 0x4;
pub const DMA: u16 = 0x8;
pub const TMR0: u16 = 0x10;
pub const TMR1: u16 = 0x20;
pub const TMR2: u16 = 0x40;
pub const CTRL: u16 = 0x80;
pub const SIO: u16 = 0x100;
pub const SPU: u16 = 0x200;
pub const LIGHTPEN: u16 = 0x400;

/// Interrupt lines of the interrupt controller, one bit each (the bits above).
#[derive(Debug, Clone, Copy, PartialEq, Eq, Structural)]
pub struct InterruptFlags {
    pub bits: u16,
}

impl InterruptFlags {
    /// The set with the lines of `bits`.
    pub fn from_bits(bits: u16) -> (r: Self)
        ensures
            r.bits == bits,
    {
        InterruptFlags { bits }
    }

    /// No line.
    pub fn empty() -> (r: Self)
        ensures
            r.bits == 0,
    {
        InterruptFlags { bits: 0 }
    }

    /// The raw bits.
    pub fn bits(&self) -> (r: u16)
        ensures
            r == self.bits,
    {
        self.bits
    }

    /// Whether a line is in both sets.
    pub fn intersects(&self, other: InterruptFlags) -> (r: bool)
        ensures
            r == (self.bits & other.bits != 0),
    {
        self.bits & other.bits != 0
    }

    /// Add the lines of `other`.
    pub fn insert(&mut self, other: InterruptFlags)
        ensures
            final(self).bits == old(self).bits | other.bits,
    {
        self.bits = self.bits | other.bits;
    }
}

impl Default for InterruptFlags {
    fn default() -> (r: Self)
        ensures
            r.bits == 0,
    {
        InterruptFlags { bits: 0 }
    }
}

/// The interrupt controller: raised lines (I_STAT) and enabled lines (I_MASK).
#[derive(Debug)]
pub struct InterruptController {
    pub i_stat: InterruptFlags,
    pub i_mask: InterruptFlags,
}

impl Default for InterruptController {
    fn default() -> (r: Self)
        ensures
            r.i_stat.bits == 0,
            r.i_mask.bits == 0,
    {
        InterruptController { i_stat: InterruptFlags::empty(), i_mask: InterruptFlags::empty() }
    }
}

impl InterruptController {
    pub open spec fn spec_pending(&self) -> bool {
        self.i_stat.bits & self.i_mask.bits != 0
    }

    /// An interrupt request goes to the CPU: a raised line is enabled.
    #[verifier::when_used_as_spec(spec_pending)]
    pub fn pending(&self) -> (r: bool)
        ensures
            r == self.spec_pending(),
    {
        self.i_stat.intersects(self.i_mask)
    }

    /// Raise the lines of `line`.
    pub fn raise(&mut self, line: InterruptFlags)
        ensures
            final(self).i_stat.bits == old(self).i_stat.bits | line.bits,
            final(self).i_mask == old(self).i_mask,
    {
        self.i_stat.insert(line);
    }
}

} // verus!
