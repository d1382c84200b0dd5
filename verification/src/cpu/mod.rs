use vstd::prelude::*;

pub mod cop0;
pub mod ins;
pub mod jit;
pub mod pipeline;

pub use cop0::{Cause, Cop0, Exception, Status};
pub use ins::Opcode;

verus! {

/// The register file that an instruction reads.
#[derive(Debug, Clone, Copy)]
pub struct Registers {
    /// General purpose registers.
    pub general: [u32; 32],
    /// Address of the instruction after the one that reads the registers.
    pub pc: u32,
    /// High bits of a multiplication, remainder of a division.
    pub hi: u32,
    /// Low bits of a multiplication, quotient of a division.
    pub lo: u32,
}

/// A load whose value reaches its register one instruction late (load delay slot).
#[derive(Debug, Clone, Copy, PartialEq, Eq, Structural)]
pub struct PendingLoad {
    /// Where to write the value. Zero ignores any write.
    pub dest: usize,
    /// Loaded value.
    pub value: u32,
}

/// A branch or jump that takes effect after its delay slot.
#[derive(Debug, Clone, Copy, PartialEq, Eq, Structural)]
pub struct PendingJump {
    /// Whether a jump will happen.
    pub happen: bool,
    /// Jump target.
    pub target: u32,
}

impl Default for PendingLoad {
    fn default() -> (r: Self)
        ensures
            r == (PendingLoad { dest: 0, value: 0 }),
    {
        PendingLoad { dest: 0, value: 0 }
    }
}

impl Default for PendingJump {
    fn default() -> (r: Self)
        ensures
            r == (PendingJump { happen: false, target: 0 }),
    {
        PendingJump { happen: false, target: 0 }
    }
}

/// The CPU state.
#[derive(Debug, Clone, Copy)]
pub struct Cpu {
    /// General purpose registers.
    pub gpr: [u32; 32],
    /// Program counter.
    pub pc: u32,
    /// High bits part for mul/div ops.
    pub hi: u32,
    /// Low bits part for mul/div ops.
    pub lo: u32,
    /// Pending load from RAM (aka load-delay slot).
    pub pending_load: PendingLoad,
    /// Pending jump (aka branch delay slot).
    pub pending_jump: PendingJump,
    /// System coprocessor.
    pub cop0: Cop0,
}

/// Reset vector of the CPU (the BIOS entry).
pub const RESET_PC: u32 = 0xBFC0_0000;

/// The register that branches and jumps "and link" write the return address to.
pub const DEFAULT_LINK_REG: usize = 31;

impl Cpu {
    /// The reset state: registers cleared, PC at the reset vector, COP0 reset.
    pub open spec fn reset_state(self) -> bool {
        &&& forall|i: int| 0 <= i < 32 ==> self.gpr[i] == 0
        &&& self.pc == RESET_PC
        &&& self.hi == 0
        &&& self.lo == 0
        &&& self.pending_load == PendingLoad { dest: 0, value: 0 }
        &&& self.pending_jump == PendingJump { happen: false, target: 0 }
        &&& forall|i: int| 0 <= i < 32 && i != cop0::STATUS_IDX ==> self.cop0.regs[i] == 0
        &&& self.cop0.regs[cop0::STATUS_IDX as int] == cop0::STATUS_RESET
    }
}

/// Reset state of the CPU.
impl Default for Cpu {
    fn default() -> (r: Self)
        ensures
            r.reset_state(),
    {
        Cpu {
            gpr: [0u32; 32],
            pc: RESET_PC,
            hi: 0,
            lo: 0,
            pending_load: PendingLoad { dest: 0, value: 0 },
            pending_jump: PendingJump { happen: false, target: 0 },
            cop0: Cop0::default(),
        }
    }
}

} // verus!
