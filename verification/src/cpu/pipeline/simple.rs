//! A simpler pipeline over a flat memory: instructions are evaluated at
//! decode, with the results of the instructions ahead forwarded.

use vstd::prelude::*;

use vstd::array::spec_array_update;

use arraydeque::{ArrayDeque, Wrapping};

use crate::cpu::cop0::{status_pop, Cop0, STATUS_IDX};
use crate::cpu::ins::{decode_spec, evaluate, LoadKind, OpResult, StoreKind};
use crate::cpu::Registers;
use crate::devices::word_bytes;
use crate::mem::{access, written, Bus};

verus! {

broadcast use vstd::array::group_array_axioms;

/// A stage failed at the instruction at `pc`.
#[derive(Debug, Clone, Copy, PartialEq, Eq, Structural)]
pub struct Error {
    pub pc: u32,
    pub kind: ErrorKind,
}

#[derive(Debug, Clone, Copy, PartialEq, Eq, Structural)]
pub enum ErrorKind {
    AluOverflow,
    InvalidInstruction(u32),
    InsLoad(crate::mem::Error),
    MemoryLoad(crate::mem::Error),
    MemoryStore(crate::mem::Error),
    Break,
    Syscall,
    Interrupt,
}

/// What a stage holds.
#[derive(Debug, Clone, Copy)]
pub enum Latch {
    Flushed,
    Fetched { pc: u32, ins: u32 },
    Decoded { pc: u32, op: OpResult },
    Executed { pc: u32, op: OpResult },
    Memory { pc: u32, op: OpResult, read: u32 },
    Writeback { pc: u32, op: OpResult },
}

/// Number of stages.
pub const DEPTH: usize = 5;

/// The stages, youngest first, in a ring buffer that drops the oldest stage
/// when a new one comes in.
#[verifier::external_body]
pub struct StageQueue {
    inner: ArrayDeque<Latch, DEPTH, Wrapping>,
}

/// The latches that a stage queue holds, front (youngest) first.
pub uninterp spec fn stages(q: StageQueue) -> Seq<Latch>;

/// `ArrayDeque::from` an array: a full queue of flushed stages.
#[verifier::external_body]
fn stage_queue_flushed() -> (r: StageQueue)
    ensures
        stages(r) == Seq::new(DEPTH as nat, |i: int| Latch::Flushed),
{
    StageQueue { inner: ArrayDeque::from([Latch::Flushed; DEPTH]) }
}

/// `ArrayDeque::push_front` of a wrapping queue: a full queue drops its back
/// element to make room at the front.
#[verifier::external_body]
fn stage_queue_push_front(q: &mut StageQueue, x: Latch)
    requires
        stages(*old(q)).len() == DEPTH,
    ensures
        stages(*final(q)) == seq![x] + stages(*old(q)).drop_last(),
{
    q.inner.push_front(x);
}

/// `ArrayDeque::get`: the latch at `i`, if the queue is that long.
#[verifier::external_body]
fn stage_queue_get(q: &StageQueue, i: usize) -> (r: Option<Latch>)
    ensures
        r == (if i < stages(*q).len() {
            Some(stages(*q)[i as int])
        } else {
            None
        }),
{
    q.inner.get(i).copied()
}

/// Indexing an `ArrayDeque` mutably: replace the latch at `i`.
#[verifier::external_body]
fn stage_queue_set(q: &mut StageQueue, i: usize, x: Latch)
    requires
        i < stages(*old(q)).len(),
    ensures
        stages(*final(q)) == stages(*old(q)).update(i as int, x),
{
    q.inner[i] = x;
}

/// Simplified and inaccurate implementation of MIPS pipeline.
pub struct Pipeline {
    queue: StageQueue,
}

/// The registers that an evaluated operation names are registers, and an
/// arithmetic one that reached a stage did not overflow.
pub open spec fn op_wf(op: OpResult) -> bool {
    match op {
        OpResult::Alu { dest, res } => dest < 32 && res is Some,
        OpResult::Load { dest, .. } => dest < 32,
        OpResult::Jump { link_reg, .. } => link_reg < 32,
        _ => true,
    }
}

pub open spec fn latch_wf(l: Latch) -> bool {
    match l {
        Latch::Decoded { op, .. } => op_wf(op),
        Latch::Executed { op, .. } => op_wf(op),
        Latch::Memory { op, .. } => op_wf(op),
        Latch::Writeback { op, .. } => op_wf(op),
        _ => true,
    }
}

impl Pipeline {
    pub closed spec fn model(&self) -> Seq<Latch> {
        stages(self.queue)
    }

    pub open spec fn wf(&self) -> bool {
        &&& self.model().len() == DEPTH
        &&& forall|i: int| 0 <= i < DEPTH ==> latch_wf(#[trigger] self.model()[i])
    }
}

impl Default for Pipeline {
    fn default() -> (r: Self)
        ensures
            r.wf(),
            r.model() == Seq::new(DEPTH as nat, |i: int| Latch::Flushed),
    {
        Pipeline { queue: stage_queue_flushed() }
    }
}

/// The fetch stage: unless an interrupt is pending, the word at `pc` enters
/// the pipeline and `pc` moves on.
pub open spec fn fetch_stage(q: Seq<Latch>, pc: u32, cop0: Cop0, mem: Seq<u8>) -> (Result<(), Error>, Seq<Latch>, u32) {
    if cop0.spec_interrupt_pending() {
        (Err(Error { pc, kind: ErrorKind::Interrupt }), q, pc)
    } else {
        match access(pc, 4, mem.len()) {
            Ok(()) => (
                Ok(()),
                seq![Latch::Fetched { pc, ins: crate::devices::word_of(mem.subrange(pc as int, pc + 4)) }]
                    + q.drop_last(),
                pc.wrapping_add(4),
            ),
            Err(e) => (Err(Error { pc, kind: ErrorKind::InsLoad(e) }), q, pc),
        }
    }
}

/// The registers with the result of an operation ahead forwarded.
pub open spec fn forward_op(regs: Registers, l: Latch) -> Registers {
    let op = match l {
        Latch::Decoded { op, .. } => Some(op),
        Latch::Executed { op, .. } => Some(op),
        Latch::Memory { op, .. } => Some(op),
        _ => None,
    };
    match op {
        Some(OpResult::Alu { dest, res: Some(v) }) => {
            let g = spec_array_update(regs.general, dest as int, v);
            Registers { general: spec_array_update(g, 0, 0), ..regs }
        },
        Some(OpResult::MulDiv { res: Some((hi, lo)) }) => Registers { hi, lo, ..regs },
        _ => regs,
    }
}

/// The registers that the decoded instruction reads: the register file with
/// the results of the three operations ahead forwarded, oldest first.
pub open spec fn decode_regs(q: Seq<Latch>, regs: Registers) -> Registers {
    forward_op(forward_op(forward_op(regs, q[4]), q[3]), q[2])
}

/// The decode stage: the fetched word is decoded and evaluated; a word that
/// is no instruction (or one not evaluated here), an overflow, BREAK and
/// SYSCALL fail; RFE pops the status stack.
pub open spec fn decode_stage(q: Seq<Latch>, regs: Registers, cop0: Cop0) -> (Result<(), Error>, Seq<Latch>, Cop0) {
    match q[1] {
        Latch::Fetched { pc, ins } => {
            let r = match decode_spec(ins) {
                Some(o) => evaluate(o, ins, decode_regs(q, regs)),
                None => None,
            };
            match r {
                None => (Err(Error { pc, kind: ErrorKind::InvalidInstruction(ins) }), q, cop0),
                Some(op) => match op {
                    OpResult::Alu { res: None, .. } => (Err(Error { pc, kind: ErrorKind::AluOverflow }), q, cop0),
                    OpResult::Break => (Err(Error { pc, kind: ErrorKind::Break }), q, cop0),
                    OpResult::Syscall => (Err(Error { pc, kind: ErrorKind::Syscall }), q, cop0),
                    _ => {
                        let cop1 = match op {
                            OpResult::Rfe => Cop0 {
                                regs: spec_array_update(
                                    cop0.regs,
                                    STATUS_IDX as int,
                                    status_pop(cop0.regs[STATUS_IDX as int]),
                                ),
                            },
                            _ => cop0,
                        };
                        (Ok(()), q.update(1, Latch::Decoded { pc, op }), cop1)
                    },
                },
            }
        },
        _ => (Ok(()), q, cop0),
    }
}

/// Whether decoding handles its word: a branch or jump needs the PC of its
/// delay slot.
pub open spec fn decode_defined(q: Seq<Latch>, regs: Registers) -> bool {
    match q[1] {
        Latch::Fetched { ins, .. } => decode_spec(ins) matches Some(o) && o.targets_from_pc() ==> regs.pc >= 4,
        _ => true,
    }
}

/// The execute stage: a taken jump or branch flushes the fetched word and
/// sets the next PC.
pub open spec fn execute_stage(q: Seq<Latch>, next_pc: u32) -> (Seq<Latch>, u32) {
    match q[2] {
        Latch::Decoded { pc, op } => {
            let q1 = q.update(2, Latch::Executed { pc, op });
            let jump = match op {
                OpResult::Jump { addr, .. } => Some(addr),
                OpResult::Branch { addr, .. } => addr,
                _ => None,
            };
            match jump {
                Some(a) => (q1.update(0, Latch::Flushed), a),
                None => (q1, next_pc),
            }
        },
        _ => (q, next_pc),
    }
}

pub open spec fn half_of(b0: u8, b1: u8) -> u16 {
    (b0 as u16) | ((b1 as u16) << 8u16)
}

/// The memory stage: loads read and stores write the memory.
pub open spec fn memory_stage(q: Seq<Latch>, mem: Seq<u8>) -> (Result<(), Error>, Seq<Latch>, Seq<u8>) {
    match q[3] {
        Latch::Executed { pc, op } => {
            let done = |read: u32| q.update(3, Latch::Memory { pc, op, read });
            match op {
                OpResult::Load { addr, kind, .. } => {
                    let n: nat = match kind {
                        LoadKind::IByte | LoadKind::UByte => 1,
                        LoadKind::IHalf | LoadKind::UHalf => 2,
                        _ => 4,
                    };
                    match access(addr, n, mem.len()) {
                        Err(e) => (Err(Error { pc, kind: ErrorKind::MemoryLoad(e) }), q, mem),
                        Ok(()) => {
                            let a = addr as int;
                            let read = match kind {
                                LoadKind::IByte => (mem[a] as i8) as u32,
                                LoadKind::IHalf => (half_of(mem[a], mem[a + 1]) as i16) as u32,
                                LoadKind::UByte => mem[a] as u32,
                                LoadKind::UHalf => half_of(mem[a], mem[a + 1]) as u32,
                                _ => crate::devices::word_of(mem.subrange(a, a + 4)),
                            };
                            (Ok(()), done(read), mem)
                        },
                    }
                },
                OpResult::Store { addr, kind } => {
                    let (n, bytes): (nat, Seq<u8>) = match kind {
                        StoreKind::Byte(v) => (1, seq![v]),
                        StoreKind::Half(v) => (2, seq![v as u8, (v >> 8u16) as u8]),
                        StoreKind::Word(v) => (4, word_bytes(v)),
                        StoreKind::WordLeft(v) => (4, word_bytes(v)),
                        StoreKind::WordRight(v) => (4, word_bytes(v)),
                    };
                    match access(addr, n, mem.len()) {
                        Err(e) => (Err(Error { pc, kind: ErrorKind::MemoryStore(e) }), q, mem),
                        Ok(()) => (Ok(()), done(0), written(mem, addr as int, bytes)),
                    }
                },
                _ => (Ok(()), done(0), mem),
            }
        },
        _ => (Ok(()), q, mem),
    }
}

/// Whether the memory stage handles its operation: no unaligned word loads
/// or stores, and no access that overflows the address space.
pub open spec fn memory_defined(q: Seq<Latch>) -> bool {
    match q[3] {
        Latch::Executed { op, .. } => match op {
            OpResult::Load { addr, kind, .. } => match kind {
                LoadKind::WordLeft | LoadKind::WordRight => false,
                LoadKind::IHalf | LoadKind::UHalf => addr % 2 == 0 ==> addr + 2 <= u32::MAX,
                LoadKind::Word => addr % 4 == 0 ==> addr + 4 <= u32::MAX,
                _ => true,
            },
            OpResult::Store { addr, kind } => match kind {
                StoreKind::WordLeft(_) | StoreKind::WordRight(_) => false,
                StoreKind::Half(_) => addr % 2 == 0 ==> addr + 2 <= u32::MAX,
                StoreKind::Word(_) => addr % 4 == 0 ==> addr + 4 <= u32::MAX,
                _ => true,
            },
            _ => true,
        },
        _ => true,
    }
}

/// The write-back stage: the result reaches the register file; register 0
/// stays zero.
pub open spec fn writeback_stage(q: Seq<Latch>, regs: Registers) -> (Seq<Latch>, Registers) {
    match q[4] {
        Latch::Memory { pc, op, read } => {
            let r = match op {
                OpResult::Alu { dest, res: Some(v) } => Registers {
                    general: spec_array_update(regs.general, dest as int, v),
                    ..regs
                },
                OpResult::Load { dest, .. } => Registers {
                    general: spec_array_update(regs.general, dest as int, read),
                    ..regs
                },
                OpResult::Branch { link: true, .. } => Registers {
                    general: spec_array_update(regs.general, 31, (pc + 8) as u32),
                    ..regs
                },
                OpResult::Jump { link: true, link_reg, .. } => Registers {
                    general: spec_array_update(regs.general, link_reg as int, (pc + 8) as u32),
                    ..regs
                },
                OpResult::MulDiv { res: Some((hi, lo)) } => Registers { hi, lo, ..regs },
                _ => regs,
            };
            (
                q.update(4, Latch::Writeback { pc, op }),
                Registers { general: spec_array_update(r.general, 0, 0), ..r },
            )
        },
        _ => (q, regs),
    }
}

pub open spec fn writeback_defined(q: Seq<Latch>) -> bool {
    match q[4] {
        Latch::Memory { pc, op, .. } => match op {
            OpResult::Branch { link: true, .. } | OpResult::Jump { link: true, .. } => pc <= u32::MAX - 8,
            _ => true,
        },
        _ => true,
    }
}

/// Flushing the `count` youngest stages, and the branch or jump right after
/// them (decoded, executed, or written back) whose delay slot failed: its
/// address, if there is one.
pub open spec fn flush_stage(q: Seq<Latch>, count: int) -> (Option<u32>, Seq<Latch>) {
    let q1 = Seq::new(q.len(), |i: int| if i < count { Latch::Flushed } else { q[i] });
    let parent = match q1[count] {
        Latch::Decoded { pc, op } => if count == 1 && op.spec_has_delay_slot() { Some(pc) } else { None },
        Latch::Executed { pc, op } => if count == 2 && op.spec_has_delay_slot() { Some(pc) } else { None },
        Latch::Writeback { pc, op } => if count == 4 && op.spec_has_delay_slot() { Some(pc) } else { None },
        _ => None,
    };
    (parent, if parent is Some { q1.update(count, Latch::Flushed) } else { q1 })
}


/// Forward the result of an operation ahead into the registers.
fn forward(regs: Registers, latch: Option<Latch>) -> (r: Registers)
    requires
        latch matches Some(l) ==> latch_wf(l),
    ensures
        r == (match latch {
            Some(l) => forward_op(regs, l),
            None => regs,
        }),
{
    let mut out = regs;
    let op = match latch {
        Some(Latch::Decoded { op, .. }) | Some(Latch::Executed { op, .. }) | Some(Latch::Memory { op, .. }) => Some(op),
        _ => None,
    };
    match op {
        Some(OpResult::Alu { dest, res: Some(v) }) => {
            // Forwarded results are already checked
            out.general[dest] = v;
            out.general[0] = 0;
        },
        Some(OpResult::MulDiv { res: Some((hi, lo)) }) => {
            out.hi = hi;
            out.lo = lo;
        },
        _ => {},
    }
    proof {
        match latch {
            Some(l) => {
                assert(out.general =~= forward_op(regs, l).general);
            },
            None => {},
        }
    }
    out
}

impl Pipeline {
    /// Fetch. Read an instruction and increment PC (program count).
    /// May be interrupted from the outside.
    pub fn fetch(&mut self, pc: &mut u32, cop0: &Cop0, bus: &Bus) -> (r: Result<(), Error>)
        requires
            old(self).wf(),
            *old(pc) % 4 == 0 ==> *old(pc) + 4 <= u32::MAX,
        ensures
            final(self).wf(),
            (r, final(self).model(), *final(pc)) == fetch_stage(old(self).model(), *old(pc), *cop0, bus.bytes()),
    {
        // Here for simplicity, will be handled as an exception (IF's PC is saved to EPC)
        if cop0.interrupt_pending() {
            return Err(Error { pc: *pc, kind: ErrorKind::Interrupt });
        }
        let ins = match bus.read_word(*pc) {
            Ok(ins) => ins,
            Err(err) => return Err(Error { pc: *pc, kind: ErrorKind::InsLoad(err) }),
        };
        stage_queue_push_front(&mut self.queue, Latch::Fetched { pc: *pc, ins });
        *pc = pc.wrapping_add(4);
        proof {
            let q = old(self).model();
            let q1 = self.model();
            assert forall|i: int| 0 <= i < DEPTH implies latch_wf(#[trigger] q1[i]) by {
                if i > 0 {
                    assert(q1[i] == q[i - 1]);
                }
            }
        }
        Ok(())
    }

    /// Decode and evaluate, with the results of the operations ahead
    /// forwarded; the register file is not touched, because the operations
    /// ahead may still fail.
    pub fn decode(&mut self, regs: &Registers, cop0: &mut Cop0) -> (r: Result<(), Error>)
        requires
            old(self).wf(),
            decode_defined(old(self).model(), *regs),
        ensures
            final(self).wf(),
            (r, final(self).model(), *final(cop0)) == decode_stage(old(self).model(), *regs, *old(cop0)),
    {
        let ghost q0 = self.model();
        let s4 = stage_queue_get(&self.queue, 4);
        let s3 = stage_queue_get(&self.queue, 3);
        let s2 = stage_queue_get(&self.queue, 2);
        proof {
            assert(latch_wf(q0[4]) && latch_wf(q0[3]) && latch_wf(q0[2]));
        }
        match stage_queue_get(&self.queue, 1) {
            Some(Latch::Fetched { pc, ins }) => {
                let fwd = forward(*regs, s4);
                let fwd = forward(fwd, s3);
                let fwd = forward(fwd, s2);
                let op = match OpResult::decode_and_evaluate(ins, &fwd) {
                    Some(op) => op,
                    None => return Err(Error { pc, kind: ErrorKind::InvalidInstruction(ins) }),
                };
                proof {
                    crate::bits::lemma_fields(ins);
                }
                match op {
                    OpResult::Alu { res: None, .. } => {
                        return Err(Error { pc, kind: ErrorKind::AluOverflow });
                    },
                    OpResult::Break => {
                        return Err(Error { pc, kind: ErrorKind::Break });
                    },
                    OpResult::Syscall => {
                        return Err(Error { pc, kind: ErrorKind::Syscall });
                    },
                    OpResult::Rfe => {
                        cop0.exception_leave();
                        proof {
                            assert(cop0.regs =~= spec_array_update(
                                old(cop0).regs,
                                STATUS_IDX as int,
                                status_pop(old(cop0).regs[STATUS_IDX as int]),
                            ));
                        }
                    },
                    _ => {},
                }
                stage_queue_set(&mut self.queue, 1, Latch::Decoded { pc, op });
                proof {
                    let q1 = self.model();
                    assert forall|i: int| 0 <= i < DEPTH implies latch_wf(#[trigger] q1[i]) by {
                        if i != 1 {
                            assert(q1[i] == q0[i]);
                        }
                    }
                }
            },
            _ => {},
        }
        Ok(())
    }

    /// Execute jumps and branches.
    /// Used instead of emulating delay slot.
    pub fn execute(&mut self, next_pc: &mut u32)
        requires
            old(self).wf(),
        ensures
            final(self).wf(),
            (final(self).model(), *final(next_pc)) == execute_stage(old(self).model(), *old(next_pc)),
    {
        let ghost q0 = self.model();
        let mut jump_addr: Option<u32> = None;
        match stage_queue_get(&self.queue, 2) {
            Some(Latch::Decoded { pc, op }) => {
                match op {
                    OpResult::Jump { addr, .. } => {
                        jump_addr = Some(addr);
                    },
                    OpResult::Branch { addr, .. } => {
                        jump_addr = addr;
                    },
                    _ => {},
                }
                stage_queue_set(&mut self.queue, 2, Latch::Executed { pc, op });
                proof {
                    let q1 = self.model();
                    assert(latch_wf(q0[2]));
                    assert forall|i: int| 0 <= i < DEPTH implies latch_wf(#[trigger] q1[i]) by {
                        if i != 2 {
                            assert(q1[i] == q0[i]);
                        }
                    }
                }
            },
            _ => {},
        }
        match jump_addr {
            Some(addr) => {
                // Flush pre-fetched, but keep decoded (so called delay slot)
                let ghost q1 = self.model();
                stage_queue_set(&mut self.queue, 0, Latch::Flushed);
                *next_pc = addr;
                proof {
                    let q2 = self.model();
                    assert forall|i: int| 0 <= i < DEPTH implies latch_wf(#[trigger] q2[i]) by {
                        if i != 0 {
                            assert(q2[i] == q1[i]);
                        }
                    }
                }
            },
            None => {},
        }
    }

    /// Operations with memory like load/store.
    /// Eliminate need for load-delay slot, imitating the real CPU pipeline.
    pub fn memory(&mut self, bus: &mut Bus) -> (r: Result<(), Error>)
        requires
            old(self).wf(),
            memory_defined(old(self).model()),
        ensures
            final(self).wf(),
            (r, final(self).model(), final(bus).bytes()) == memory_stage(old(self).model(), old(bus).bytes()),
    {
        let ghost q0 = self.model();
        match stage_queue_get(&self.queue, 3) {
            Some(Latch::Executed { pc, op }) => {
                proof {
                    assert(latch_wf(q0[3]));
                }
                let mut read: u32 = 0;
                match op {
                    OpResult::Load { addr, kind, .. } => {
                        read = match kind {
                            LoadKind::IByte => match bus.read_byte(addr) {
                                Ok(b) => (b as i8) as u32,
                                Err(err) => return Err(Error { pc, kind: ErrorKind::MemoryLoad(err) }),
                            },
                            LoadKind::IHalf => match bus.read_half(addr) {
                                Ok(h) => (h as i16) as u32,
                                Err(err) => return Err(Error { pc, kind: ErrorKind::MemoryLoad(err) }),
                            },
                            LoadKind::UByte => match bus.read_byte(addr) {
                                Ok(b) => b as u32,
                                Err(err) => return Err(Error { pc, kind: ErrorKind::MemoryLoad(err) }),
                            },
                            LoadKind::UHalf => match bus.read_half(addr) {
                                Ok(h) => h as u32,
                                Err(err) => return Err(Error { pc, kind: ErrorKind::MemoryLoad(err) }),
                            },
                            LoadKind::Word => match bus.read_word(addr) {
                                Ok(w) => w,
                                Err(err) => return Err(Error { pc, kind: ErrorKind::MemoryLoad(err) }),
                            },
                            _ => vstd::pervasive::unreached(),
                        };
                    },
                    OpResult::Store { addr, kind } => {
                        let stored = match kind {
                            StoreKind::Byte(val) => bus.store_byte(addr, val),
                            StoreKind::Half(val) => bus.store_half(addr, val),
                            StoreKind::Word(val) => bus.store_word(addr, val),
                            _ => vstd::pervasive::unreached(),
                        };
                        match stored {
                            Ok(()) => {},
                            Err(err) => return Err(Error { pc, kind: ErrorKind::MemoryStore(err) }),
                        }
                    },
                    _ => {},
                }
                stage_queue_set(&mut self.queue, 3, Latch::Memory { pc, op, read });
                proof {
                    let q1 = self.model();
                    assert forall|i: int| 0 <= i < DEPTH implies latch_wf(#[trigger] q1[i]) by {
                        if i != 3 {
                            assert(q1[i] == q0[i]);
                        }
                    }
                }
            },
            _ => {},
        }
        Ok(())
    }

    /// Write to register file.
    pub fn writeback(&mut self, regs: &mut Registers)
        requires
            old(self).wf(),
            writeback_defined(old(self).model()),
        ensures
            final(self).wf(),
            (final(self).model(), *final(regs)) == writeback_stage(old(self).model(), *old(regs)),
    {
        let ghost q0 = self.model();
        match stage_queue_get(&self.queue, 4) {
            Some(Latch::Memory { pc, op, read }) => {
                proof {
                    assert(latch_wf(q0[4]));
                }
                match op {
                    OpResult::Alu { dest, res: Some(v) } => {
                        // No overflow, because checked already
                        regs.general[dest] = v;
                    },
                    OpResult::Load { dest, .. } => {
                        regs.general[dest] = read;
                    },
                    OpResult::Branch { link: true, .. } => {
                        regs.general[31] = pc + 8;
                    },
                    OpResult::Jump { link: true, link_reg, .. } => {
                        regs.general[link_reg] = pc + 8;
                    },
                    OpResult::MulDiv { res: Some((hi, lo)) } => {
                        regs.hi = hi;
                        regs.lo = lo;
                    },
                    _ => {},
                }
                // Always zero
                regs.general[0] = 0;
                stage_queue_set(&mut self.queue, 4, Latch::Writeback { pc, op });
                proof {
                    let q1 = self.model();
                    assert forall|i: int| 0 <= i < DEPTH implies latch_wf(#[trigger] q1[i]) by {
                        if i != 4 {
                            assert(q1[i] == q0[i]);
                        }
                    }
                    assert(regs.general =~= writeback_stage(q0, *old(regs)).1.general);
                }
            },
            _ => {},
        }
    }

    /// Flush the pipeline with `count` of instructions.
    /// If the next stage is branch or jump, flush it too.
    /// Returns PC of parent branch/jump or `None`.
    pub fn flush(&mut self, count: usize) -> (r: Option<u32>)
        requires
            old(self).wf(),
            1 <= count <= 4,
        ensures
            final(self).wf(),
            (r, final(self).model()) == flush_stage(old(self).model(), count as int),
    {
        let ghost q0 = self.model();
        let mut i: usize = 0;
        while i < count
            invariant
                0 <= i <= count <= 4,
                self.wf(),
                forall|j: int| 0 <= j < DEPTH ==> #[trigger] self.model()[j] == (if j < i {
                    Latch::Flushed
                } else {
                    q0[j]
                }),
            decreases count - i,
        {
            stage_queue_set(&mut self.queue, i, Latch::Flushed);
            proof {
                let q1 = self.model();
                assert forall|j: int| 0 <= j < DEPTH implies latch_wf(#[trigger] q1[j]) by {}
            }
            i = i + 1;
        }
        let ghost q1 = Seq::new(q0.len(), |j: int| if j < count { Latch::Flushed } else { q0[j] });
        assert(self.model() =~= q1);

        // Flush branch/jump operation older than failed delay slot and save its PC
        let found = match stage_queue_get(&self.queue, count) {
            Some(Latch::Decoded { pc, op }) if count == 1 => Some((pc, op)),
            Some(Latch::Executed { pc, op }) if count == 2 => Some((pc, op)),
            Some(Latch::Writeback { pc, op }) if count == 4 => Some((pc, op)),
            _ => None,
        };
        let mut parent: Option<u32> = None;
        match found {
            Some((pc, op)) => {
                if op.has_delay_slot() {
                    parent = Some(pc);
                    stage_queue_set(&mut self.queue, count, Latch::Flushed);
                    proof {
                        let q2 = self.model();
                        assert forall|j: int| 0 <= j < DEPTH implies latch_wf(#[trigger] q2[j]) by {
                            if j != count {
                                assert(q2[j] == q1[j]);
                            }
                        }
                    }
                }
            },
            None => {},
        }
        parent
    }
}

} // verus!
