use vstd::prelude::*;

use crate::cpu::ins::decode_spec;
use crate::cpu::{Exception, Opcode};
use crate::devices::word_of;
use crate::mem::{access, Bus, ErrorKind};

verus! {

/// A decoded instruction, or the exception that ends the block.
#[derive(Debug, Clone, Copy, PartialEq, Eq, Structural)]
pub enum DecRes {
    Decoded { pc: u32, ins: u32, in_delay_slot: bool, op: Opcode },
    Exception { pc: u32, in_delay_slot: bool, exc: Exception },
}

/// Walks the instructions of a block from a start address: at most `left`
/// instructions, one more for the delay slot of a branch in last place. A
/// failed fetch, a reserved instruction, SYSCALL and BREAK end the block with
/// their exception; the delay slot of a branch ends it too.
#[derive(Debug, Clone, Copy, PartialEq, Eq, Structural)]
pub struct InsIter {
    /// Address of the next instruction.
    pub pc: u32,
    pub left: usize,
    pub pending_delay_slot: bool,
}

/// The iterator once the block is over.
pub open spec fn finished(pc: u32) -> InsIter {
    InsIter { pc, left: 0, pending_delay_slot: false }
}

/// The exception of a failed fetch.
pub open spec fn fetch_exception(e: crate::mem::Error) -> Exception {
    match e.kind {
        ErrorKind::UnalignedAddr => Exception::UnalignedLoad { bad_vaddr: e.bad_vaddr },
        ErrorKind::OutOfMemory => Exception::InstructionBus { bad_vaddr: e.bad_vaddr },
    }
}

/// What the next step gives, and the iterator after it, with memory `mem`.
pub open spec fn next_spec(it: InsIter, mem: Seq<u8>) -> (Option<DecRes>, InsIter) {
    if !it.pending_delay_slot && it.left == 0 {
        (None, it)
    } else {
        // The delay slot is taken even past the limit
        let left = if it.left == 0 { usize::MAX } else { (it.left - 1) as usize };
        let pc = it.pc;
        let ds = it.pending_delay_slot;
        match access(pc, 4, mem.len()) {
            Err(e) => (
                Some(DecRes::Exception { pc, in_delay_slot: ds, exc: fetch_exception(e) }),
                finished(pc),
            ),
            Ok(()) => {
                let ins = word_of(mem.subrange(pc as int, pc + 4));
                match decode_spec(ins) {
                    None => (
                        Some(DecRes::Exception { pc, in_delay_slot: ds, exc: Exception::ReservedInstruction }),
                        finished(pc),
                    ),
                    Some(op) => if op == Opcode::Syscall {
                        (Some(DecRes::Exception { pc, in_delay_slot: ds, exc: Exception::Syscall }), finished(pc))
                    } else if op == Opcode::Break {
                        (Some(DecRes::Exception { pc, in_delay_slot: ds, exc: Exception::Break }), finished(pc))
                    } else {
                        let next = pc.wrapping_add(4);
                        let it2 = if ds {
                            finished(next)
                        } else {
                            InsIter { pc: next, left, pending_delay_slot: op.spec_has_branch_delay() }
                        };
                        (Some(DecRes::Decoded { pc, ins, in_delay_slot: ds, op }), it2)
                    },
                }
            },
        }
    }
}

/// A measure that each step that gives something decreases.
pub open spec fn measure(it: InsIter) -> nat {
    (2 * it.left + if it.pending_delay_slot { 1nat } else { 0nat }) as nat
}

/// Whether no fetch of the block overflows the address space.
pub open spec fn fits(it: InsIter) -> bool {
    if it.pending_delay_slot {
        it.pc + 4 <= u32::MAX
    } else {
        it.left == 0 || it.pc + 4 * it.left + 4 <= u32::MAX
    }
}

/// Everything the iterator gives from here on, and the iterator at the end.
pub open spec fn collected(it: InsIter, mem: Seq<u8>) -> (Seq<DecRes>, InsIter)
    decreases measure(it),
{
    let (r, it2) = next_spec(it, mem);
    match r {
        None => (Seq::empty(), it),
        Some(d) => if measure(it2) < measure(it) {
            let (rest, last) = collected(it2, mem);
            (seq![d] + rest, last)
        } else {
            (seq![d], it2)
        },
    }
}

impl InsIter {
    /// Start a block at `pc` with at most `size` instructions.
    pub fn new_start_from(pc: u32, size: usize) -> (r: Self)
        ensures
            r == (InsIter { pc, left: size, pending_delay_slot: false }),
    {
        InsIter { pc, left: size, pending_delay_slot: false }
    }

    /// Decode the next instruction of the block, if there is one.
    pub fn next(&mut self, bus: &Bus) -> (r: Option<DecRes>)
        requires
            (old(self).pending_delay_slot || old(self).left > 0) && old(self).pc % 4 == 0
                ==> old(self).pc + 4 <= u32::MAX,
        ensures
            (r, *final(self)) == next_spec(*old(self), bus.bytes()),
    {
        if self.pending_delay_slot {
            // Ignore skip when left=0
            self.left = self.left.wrapping_sub(1);
        } else {
            if self.left == 0 {
                return None;
            }
            self.left = self.left - 1;
        }
        let pc = self.pc;
        let in_delay_slot = self.pending_delay_slot;
        let ins = match bus.read_word(pc) {
            Ok(ins) => ins,
            Err(err) => {
                self.enough();
                let exc = match err.kind {
                    ErrorKind::UnalignedAddr => Exception::UnalignedLoad { bad_vaddr: err.bad_vaddr },
                    ErrorKind::OutOfMemory => Exception::InstructionBus { bad_vaddr: err.bad_vaddr },
                };
                return Some(DecRes::Exception { pc, in_delay_slot, exc });
            },
        };
        let op = match Opcode::decode(ins) {
            Some(op) => op,
            None => {
                self.enough();
                return Some(DecRes::Exception { pc, in_delay_slot, exc: Exception::ReservedInstruction });
            },
        };
        if op == Opcode::Syscall {
            self.enough();
            return Some(DecRes::Exception { pc, in_delay_slot, exc: Exception::Syscall });
        } else if op == Opcode::Break {
            self.enough();
            return Some(DecRes::Exception { pc, in_delay_slot, exc: Exception::Break });
        } else if self.pending_delay_slot {
            self.enough();
        } else if op.has_branch_delay() {
            self.pending_delay_slot = true;
        }
        self.pc = pc.wrapping_add(4);
        Some(DecRes::Decoded { pc, ins, in_delay_slot, op })
    }

    /// End the block: no pending delay slot, nothing left.
    fn enough(&mut self)
        ensures
            *final(self) == finished(old(self).pc),
    {
        // Cancel pending instruction
        self.pending_delay_slot = false;
        // Limit is exceeded
        self.left = 0;
    }

    /// All the instructions of the block, in order.
    pub fn collect(&mut self, bus: &Bus) -> (r: Vec<DecRes>)
        requires
            fits(*old(self)),
        ensures
            (r@, *final(self)) == collected(*old(self), bus.bytes()),
    {
        let mut out: Vec<DecRes> = Vec::new();
        let ghost full = collected(*self, bus.bytes());
        loop
            invariant_except_break
                fits(*self),
                full.0 == out@ + collected(*self, bus.bytes()).0,
                full.1 == collected(*self, bus.bytes()).1,
            ensures
                (out@, *self) == full,
            decreases measure(*self),
        {
            let ghost before = *self;
            match self.next(bus) {
                None => {
                    assert(out@ =~= out@ + Seq::<DecRes>::empty());
                    break;
                },
                Some(d) => {
                    out.push(d);
                    assert(measure(*self) < measure(before));
                    assert(full.0 =~= out@ + collected(*self, bus.bytes()).0);
                },
            }
        }
        out
    }
}

} // verus!
