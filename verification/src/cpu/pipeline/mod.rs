use vstd::prelude::*;

use vstd::array::spec_array_update;

use arraydeque::{ArrayDeque, Wrapping};

use crate::cpu::cop0::{status_pop, Cop0, Exception, STATUS_IDX};
use crate::cpu::ins::decode_spec;
use crate::cpu::{Cpu, Opcode, Registers};
use crate::devices::{word_bytes, word_of};
use crate::interconnect::{
    load_defined, load_spec, store_defined, store_spec, Bus, BusError, BusErrorKind, BusModel,
};
use ops::{execute_spec, ExecRes, LoadKind, StoreKind};

pub mod ops;
pub mod simple;

verus! {

broadcast use vstd::array::group_array_axioms;

/// A stage failed at the instruction at `pc`.
#[derive(Debug, Clone, Copy, PartialEq, Eq, Structural)]
pub struct Error {
    pub pc: u32,
    pub kind: ErrorKind,
}

#[derive(Debug, Clone, Copy, PartialEq, Eq, Structural)]
pub enum ErrorKind {
    AluOverflow,
    InvalidInstruction(u32),
    InsLoad(BusError),
    MemoryLoad(BusError),
    MemoryStore(BusError),
    Break,
    Syscall,
    Interrupt,
}

/// What a stage of the pipeline holds: the instruction in it, as far as the
/// stages before have taken it.
#[derive(Debug, Clone, Copy)]
pub enum Latch {
    Flushed,
    Fetched { pc: u32, ins: u32 },
    Decoded { pc: u32, ins: u32, op: Opcode, regs: Registers },
    Executed { pc: u32, op: Opcode, outcome: ExecRes },
    Memory { pc: u32, op: Opcode, outcome: ExecRes, read: u32 },
    WrittenBack { op: Opcode, outcome: ExecRes, read: u32 },
}

/// Number of latches: fetch, decode, execute, memory, write-back, and the
/// instruction that left the pipeline last.
pub const STAGES: usize = 6;

/// The latches of the pipeline, youngest first, in a ring buffer that drops
/// the oldest latch when a new one comes in.
#[verifier::external_body]
pub struct LatchQueue {
    inner: ArrayDeque<Latch, STAGES, Wrapping>,
}

/// The latches that a queue holds, front (youngest) first.
pub uninterp spec fn latches(q: LatchQueue) -> Seq<Latch>;

/// `ArrayDeque::from` an array: a full queue of flushed latches.
#[verifier::external_body]
fn latch_queue_flushed() -> (r: LatchQueue)
    ensures
        latches(r) == Seq::new(STAGES as nat, |i: int| Latch::Flushed),
{
    LatchQueue { inner: ArrayDeque::from([Latch::Flushed; STAGES]) }
}

/// `ArrayDeque::push_front` of a wrapping queue: a full queue drops its back
/// element to make room at the front.
#[verifier::external_body]
fn latch_queue_push_front(q: &mut LatchQueue, x: Latch)
    requires
        latches(*old(q)).len() == STAGES,
    ensures
        latches(*final(q)) == seq![x] + latches(*old(q)).drop_last(),
{
    q.inner.push_front(x);
}

/// `ArrayDeque::get`: the latch at `i`, if the queue is that long.
#[verifier::external_body]
fn latch_queue_get(q: &LatchQueue, i: usize) -> (r: Option<Latch>)
    ensures
        r == (if i < latches(*q).len() {
            Some(latches(*q)[i as int])
        } else {
            None
        }),
{
    q.inner.get(i).copied()
}

/// Indexing an `ArrayDeque` mutably: replace the latch at `i`.
#[verifier::external_body]
fn latch_queue_set(q: &mut LatchQueue, i: usize, x: Latch)
    requires
        i < latches(*old(q)).len(),
    ensures
        latches(*final(q)) == latches(*old(q)).update(i as int, x),
{
    q.inner[i] = x;
}

/// A simplified five-stage pipeline: fetch, decode, execute, memory and
/// write-back run on different instructions in one cycle. Results are
/// forwarded to the execute stage, so no load delay slot is seen; a jump
/// flushes the fetched instruction and keeps the decoded one (the branch
/// delay slot).
pub struct State {
    queue: LatchQueue,
}

/// The indices that an execute result names are registers.
pub open spec fn exec_wf(e: ExecRes) -> bool {
    match e {
        ExecRes::Alu { dest, .. } => dest < 32,
        ExecRes::Load { dest, .. } => dest < 32,
        ExecRes::Jump { link_reg, .. } => link_reg < 32,
        ExecRes::Mfc0 { dest, from } => dest < 32 && from < 32,
        ExecRes::Mtc0 { dest, .. } => dest < 32,
        _ => true,
    }
}

pub open spec fn latch_wf(l: Latch) -> bool {
    match l {
        Latch::Executed { outcome, .. } => exec_wf(outcome),
        Latch::Memory { outcome, .. } => exec_wf(outcome),
        Latch::WrittenBack { outcome, .. } => exec_wf(outcome),
        _ => true,
    }
}

/// Six latches, each naming registers only.
pub open spec fn queue_wf(q: Seq<Latch>) -> bool {
    q.len() == STAGES && forall|i: int| 0 <= i < STAGES ==> latch_wf(#[trigger] q[i])
}

impl State {
    pub closed spec fn model(&self) -> Seq<Latch> {
        latches(self.queue)
    }

    pub open spec fn wf(&self) -> bool {
        queue_wf(self.model())
    }
}

impl Default for State {
    /// All stages flushed.
    fn default() -> (r: Self)
        ensures
            r.wf(),
            r.model() == Seq::new(STAGES as nat, |i: int| Latch::Flushed),
    {
        State { queue: latch_queue_flushed() }
    }
}

/// The fetch stage: unless an interrupt is pending, the word at `pc` enters
/// the pipeline and `pc` moves on. Gives the outcome, the latches, `pc` and
/// the bus after it.
pub open spec fn fetch_stage(q: Seq<Latch>, pc: u32, cop0: Cop0, b: BusModel) -> (
    Result<(), Error>,
    Seq<Latch>,
    u32,
    BusModel,
) {
    if cop0.spec_interrupt_pending() {
        (Err(Error { pc, kind: ErrorKind::Interrupt }), q, pc, b)
    } else {
        let (r, b1) = load_spec(b, pc, 4);
        match r {
            Ok(bytes) => (
                Ok(()),
                seq![Latch::Fetched { pc, ins: word_of(bytes) }] + q.drop_last(),
                pc.wrapping_add(4),
                b1,
            ),
            Err(e) => (Err(Error { pc, kind: ErrorKind::InsLoad(e) }), q, pc, b1),
        }
    }
}

/// The decode stage: the fetched instruction is decoded, with a snapshot of
/// the registers; a word that is no instruction fails.
pub open spec fn decode_stage(q: Seq<Latch>, regs: Registers) -> (Result<(), Error>, Seq<Latch>) {
    match q[1] {
        Latch::Fetched { pc, ins } => match decode_spec(ins) {
            Some(op) => (Ok(()), q.update(1, Latch::Decoded { pc, ins, op, regs })),
            None => (Err(Error { pc, kind: ErrorKind::InvalidInstruction(ins) }), q),
        },
        _ => (Ok(()), q),
    }
}

/// The write-back stage: the result of the instruction in the memory stage
/// reaches the register file; register 0 stays zero.
pub open spec fn writeback_stage(q: Seq<Latch>, regs: Registers) -> (Seq<Latch>, Registers) {
    match q[4] {
        Latch::Memory { pc, op, outcome, read } => {
            let r = match outcome {
                ExecRes::Alu { dest, res: Some(res) } => Registers {
                    general: spec_array_update(regs.general, dest as int, res),
                    ..regs
                },
                ExecRes::MulDiv { hi, lo } => Registers { hi, lo, ..regs },
                ExecRes::Branch { link: true, .. } => Registers {
                    general: spec_array_update(regs.general, 31, (pc + 8) as u32),
                    ..regs
                },
                ExecRes::Jump { link: true, link_reg, .. } => Registers {
                    general: spec_array_update(regs.general, link_reg as int, (pc + 8) as u32),
                    ..regs
                },
                ExecRes::Load { dest, .. } => Registers {
                    general: spec_array_update(regs.general, dest as int, read),
                    ..regs
                },
                ExecRes::Mfc0 { dest, .. } => Registers {
                    general: spec_array_update(regs.general, dest as int, read),
                    ..regs
                },
                _ => regs,
            };
            (
                q.update(4, Latch::WrittenBack { op, outcome, read }),
                Registers { general: spec_array_update(r.general, 0, 0), ..r },
            )
        },
        _ => (q, regs),
    }
}

/// Whether the write-back stage runs without overflow of a link address.
pub open spec fn writeback_defined(q: Seq<Latch>) -> bool {
    match q[4] {
        Latch::Memory { pc, outcome, .. } => match outcome {
            ExecRes::Branch { link: true, .. } | ExecRes::Jump { link: true, .. } => pc
                <= u32::MAX - 8,
            _ => true,
        },
        _ => true,
    }
}

/// Flushing the `count` youngest stages; the stage after them is flushed too
/// when it holds a branch or jump (the failed instruction was in its delay
/// slot), which the result tells.
pub open spec fn flush_stage(q: Seq<Latch>, count: int) -> (bool, Seq<Latch>) {
    let q1 = Seq::new(q.len(), |i: int| if i < count { Latch::Flushed } else { q[i] });
    let parent = match q1[count] {
        Latch::Decoded { op, .. } => count == 1 && op.spec_has_branch_delay(),
        Latch::Executed { op, .. } => count == 2 && op.spec_has_branch_delay(),
        Latch::Memory { op, .. } => count == 3 && op.spec_has_branch_delay(),
        Latch::WrittenBack { op, .. } => count == 4 && op.spec_has_branch_delay(),
        _ => false,
    };
    (parent, if parent { q1.update(count, Latch::Flushed) } else { q1 })
}


/// The execute result that a latch carries, if it got that far.
pub open spec fn latch_outcome(l: Latch) -> Option<ExecRes> {
    match l {
        Latch::Executed { outcome, .. } => Some(outcome),
        Latch::Memory { outcome, .. } => Some(outcome),
        Latch::WrittenBack { outcome, .. } => Some(outcome),
        _ => None,
    }
}

/// The value that the memory stage read for a latch, if it got that far.
pub open spec fn latch_read(l: Latch) -> Option<u32> {
    match l {
        Latch::Memory { read, .. } => Some(read),
        Latch::WrittenBack { read, .. } => Some(read),
        _ => None,
    }
}

/// The registers with the result of an older instruction (in latch `l`)
/// forwarded into them; register 0 reads as zero whatever the latch.
pub open spec fn forwarded(regs: Registers, l: Option<Latch>, cop0: Cop0) -> Registers {
    let r = match l {
        Some(l) => match latch_outcome(l) {
            Some(ExecRes::Alu { dest, res: Some(res) }) => Registers {
                general: spec_array_update(regs.general, dest as int, res),
                ..regs
            },
            Some(ExecRes::MulDiv { hi, lo }) => Registers { hi, lo, ..regs },
            Some(ExecRes::Mfc0 { dest, from }) => Registers {
                general: spec_array_update(regs.general, dest as int, cop0.regs[from as int]),
                ..regs
            },
            Some(ExecRes::Load { dest, .. }) => match latch_read(l) {
                Some(read) => Registers {
                    general: spec_array_update(regs.general, dest as int, read),
                    ..regs
                },
                None => regs,
            },
            _ => regs,
        },
        None => regs,
    };
    Registers { general: spec_array_update(r.general, 0, 0), ..r }
}

/// The registers that the instruction in the execute stage reads: its
/// snapshot with the results of the three older instructions forwarded,
/// oldest first.
pub open spec fn execute_regs(q: Seq<Latch>, regs: Registers, cop0: Cop0) -> Registers {
    forwarded(forwarded(forwarded(regs, Some(q[5]), cop0), Some(q[4]), cop0), Some(q[3]), cop0)
}

/// The execute stage: the decoded instruction computes its result from the
/// forwarded registers. Overflow, BREAK and SYSCALL fail and leave everything
/// as it was; RFE pops the status stack; a taken jump or branch flushes the
/// fetched instruction and sets the next PC.
pub open spec fn execute_stage(q: Seq<Latch>, next_pc: u32, cop0: Cop0) -> (
    Result<(), Error>,
    Seq<Latch>,
    u32,
    Cop0,
) {
    match q[2] {
        Latch::Decoded { pc, ins, op, regs } => {
            let res = execute_spec(ins, op, execute_regs(q, regs, cop0));
            match res {
                ExecRes::Alu { res: None, .. } => (
                    Err(Error { pc, kind: ErrorKind::AluOverflow }),
                    q,
                    next_pc,
                    cop0,
                ),
                ExecRes::Break => (Err(Error { pc, kind: ErrorKind::Break }), q, next_pc, cop0),
                ExecRes::Syscall => (
                    Err(Error { pc, kind: ErrorKind::Syscall }),
                    q,
                    next_pc,
                    cop0,
                ),
                _ => {
                    let cop1 = match res {
                        ExecRes::Rfe => Cop0 {
                            regs: spec_array_update(
                                cop0.regs,
                                STATUS_IDX as int,
                                status_pop(cop0.regs[STATUS_IDX as int]),
                            ),
                        },
                        _ => cop0,
                    };
                    let q1 = q.update(2, Latch::Executed { pc, op, outcome: res });
                    let jump = match res {
                        ExecRes::Jump { addr, .. } => Some(addr),
                        ExecRes::Branch { addr, .. } => addr,
                        _ => None,
                    };
                    match jump {
                        Some(a) => (Ok(()), q1.update(0, Latch::Flushed), a, cop1),
                        None => (Ok(()), q1, next_pc, cop1),
                    }
                },
            }
        },
        _ => (Ok(()), q, next_pc, cop0),
    }
}

/// Whether the execute stage handles its instruction: the coprocessor
/// control moves are not supported, and an instruction whose target depends
/// on the PC needs the PC of its delay slot.
pub open spec fn execute_defined(q: Seq<Latch>) -> bool {
    match q[2] {
        Latch::Decoded { op, regs, .. } => op != Opcode::Cfc0 && op != Opcode::Ctc0 && (
        op.targets_from_pc() ==> regs.pc >= 4),
        _ => true,
    }
}

/// Bytes that a load moves.
pub open spec fn load_size(k: LoadKind) -> nat {
    match k {
        LoadKind::IByte | LoadKind::UByte => 1,
        LoadKind::IHalf | LoadKind::UHalf => 2,
        _ => 4,
    }
}

/// The half word of two bytes, least significant first.
pub open spec fn half_of(b: Seq<u8>) -> u16 {
    (b[0] as u16) | ((b[1] as u16) << 8u16)
}

/// The value a load reads: bytes and half words are sign- or zero-extended
/// by the kind of the load.
pub open spec fn loaded_value(k: LoadKind, b: Seq<u8>) -> u32 {
    match k {
        LoadKind::IByte => (b[0] as i8) as u32,
        LoadKind::IHalf => (half_of(b) as i16) as u32,
        LoadKind::UByte => b[0] as u32,
        LoadKind::UHalf => half_of(b) as u32,
        _ => word_of(b),
    }
}

/// The bytes a store writes, least significant first.
pub open spec fn stored_bytes(k: StoreKind) -> Seq<u8> {
    match k {
        StoreKind::Byte(v) => seq![v],
        StoreKind::Half(v) => seq![v as u8, (v >> 8u16) as u8],
        StoreKind::Word(v) => word_bytes(v),
        StoreKind::WordLeft(v) => word_bytes(v),
        StoreKind::WordRight(v) => word_bytes(v),
    }
}

/// The memory stage: loads read the bus, stores write it unless the cache is
/// isolated, MFC0 reads and MTC0 writes the system coprocessor. A failed
/// access leaves the latches as they were.
pub open spec fn memory_stage(q: Seq<Latch>, b: BusModel, cop0: Cop0) -> (
    Result<(), Error>,
    Seq<Latch>,
    BusModel,
    Cop0,
) {
    match q[3] {
        Latch::Executed { pc, op, outcome } => {
            let done = |read: u32| q.update(3, Latch::Memory { pc, op, outcome, read });
            match outcome {
                ExecRes::Load { addr, kind, .. } => {
                    let (r, b1) = load_spec(b, addr, load_size(kind));
                    match r {
                        Ok(bytes) => (Ok(()), done(loaded_value(kind, bytes)), b1, cop0),
                        Err(e) => (Err(Error { pc, kind: ErrorKind::MemoryLoad(e) }), q, b1, cop0),
                    }
                },
                ExecRes::Store { addr, kind } => if cop0.spec_status().spec_isc() {
                    (Ok(()), done(0), b, cop0)
                } else {
                    let (r, b1) = store_spec(b, addr, stored_bytes(kind));
                    match r {
                        Ok(()) => (Ok(()), done(0), b1, cop0),
                        Err(e) => (Err(Error { pc, kind: ErrorKind::MemoryStore(e) }), q, b1, cop0),
                    }
                },
                ExecRes::Mfc0 { from, .. } => (Ok(()), done(cop0.regs[from as int]), b, cop0),
                ExecRes::Mtc0 { dest, res } => (
                    Ok(()),
                    done(0),
                    b,
                    Cop0 { regs: spec_array_update(cop0.regs, dest as int, res) },
                ),
                _ => (Ok(()), done(0), b, cop0),
            }
        },
        _ => (Ok(()), q, b, cop0),
    }
}

/// Whether the memory stage handles its instruction: the unaligned word
/// loads and stores are not supported, and the bus handles the access.
pub open spec fn memory_defined(q: Seq<Latch>, b: BusModel, cop0: Cop0) -> bool {
    match q[3] {
        Latch::Executed { outcome, .. } => match outcome {
            ExecRes::Load { addr, kind, .. } => kind != LoadKind::WordLeft && kind
                != LoadKind::WordRight && load_defined(b, addr, load_size(kind)),
            ExecRes::Store { addr, kind } => !cop0.spec_status().spec_isc() ==> (
            !(kind is WordLeft) && !(kind is WordRight) && store_defined(b, addr, stored_bytes(kind))),
            _ => true,
        },
        _ => true,
    }
}



/// The exception that a failed stage raises.
pub open spec fn stage_exception(kind: ErrorKind) -> Exception {
    match kind {
        ErrorKind::InvalidInstruction(_) => Exception::ReservedInstruction,
        ErrorKind::AluOverflow => Exception::Overflow,
        ErrorKind::Break => Exception::Break,
        ErrorKind::Syscall => Exception::Syscall,
        ErrorKind::Interrupt => Exception::Interrupt,
        ErrorKind::InsLoad(e) => match e.kind {
            BusErrorKind::UnalignedAddr => Exception::UnalignedLoad { bad_vaddr: e.bad_vaddr },
            _ => Exception::InstructionBus { bad_vaddr: e.bad_vaddr },
        },
        ErrorKind::MemoryLoad(e) => match e.kind {
            BusErrorKind::UnalignedAddr => Exception::UnalignedLoad { bad_vaddr: e.bad_vaddr },
            _ => Exception::DataBus { bad_vaddr: e.bad_vaddr },
        },
        ErrorKind::MemoryStore(e) => match e.kind {
            BusErrorKind::UnalignedAddr => Exception::UnalignedStore { bad_vaddr: e.bad_vaddr },
            _ => Exception::DataBus { bad_vaddr: e.bad_vaddr },
        },
    }
}

/// The registers of the CPU, with `pc` as the program counter.
pub open spec fn cpu_regs(c: Cpu, pc: u32) -> Registers {
    Registers { general: c.gpr, pc, hi: c.hi, lo: c.lo }
}

/// The intermediate states of one cycle: the latches and the values after
/// fetch, decode, execute and memory.
pub open spec fn cycle_states(q: Seq<Latch>, c: Cpu, b: BusModel) -> (
    (Result<(), Error>, Seq<Latch>, u32, BusModel),
    (Result<(), Error>, Seq<Latch>),
    (Result<(), Error>, Seq<Latch>, u32, Cop0),
    (Result<(), Error>, Seq<Latch>, BusModel, Cop0),
) {
    let f = fetch_stage(q, c.pc, c.cop0, b);
    let d = decode_stage(f.1, cpu_regs(c, f.2));
    let e = execute_stage(d.1, f.2, c.cop0);
    let m = memory_stage(e.1, f.3, e.3);
    (f, d, e, m)
}

/// One cycle of the pipeline: all five stages run, write-back last. The
/// oldest stage that failed decides: it and the younger stages are flushed
/// (with the branch whose delay slot failed), and the result tells whether
/// the failed instruction sat in a delay slot, its address and its exception.
pub open spec fn run_spec(q: Seq<Latch>, c: Cpu, b: BusModel) -> (
    Result<(), (bool, u32, Exception)>,
    Seq<Latch>,
    Cpu,
    BusModel,
) {
    let (f, d, e, m) = cycle_states(q, c, b);
    let (q5, regs) = writeback_stage(m.1, cpu_regs(c, e.2));
    let c1 = Cpu { gpr: regs.general, pc: e.2, hi: regs.hi, lo: regs.lo, cop0: m.3, ..c };
    let failed = if m.0 is Err {
        Some((m.0->Err_0, 4int))
    } else if e.0 is Err {
        Some((e.0->Err_0, 3int))
    } else if d.0 is Err {
        Some((d.0->Err_0, 2int))
    } else if f.0 is Err {
        Some((f.0->Err_0, 1int))
    } else {
        None
    };
    match failed {
        None => (Ok(()), q5, c1, m.2),
        Some((err, count)) => {
            let (bd, q6) = flush_stage(q5, count);
            (Err((bd, err.pc, stage_exception(err.kind))), q6, c1, m.2)
        },
    }
}

/// Whether every stage of the cycle handles its instruction.
pub open spec fn run_defined(q: Seq<Latch>, c: Cpu, b: BusModel) -> bool {
    let (f, d, e, m) = cycle_states(q, c, b);
    &&& !c.cop0.spec_interrupt_pending() ==> load_defined(b, c.pc, 4)
    &&& execute_defined(d.1)
    &&& memory_defined(e.1, f.3, e.3)
    &&& writeback_defined(m.1)
}

/// Forward the result of an older instruction into the registers.
fn forward(input: Registers, latch: Option<Latch>, cop0: &Cop0) -> (r: Registers)
    requires
        latch matches Some(l) ==> latch_wf(l),
    ensures
        r == forwarded(input, latch, *cop0),
{
    let mut regs = input;
    match latch {
        Some(l) => {
            let (outcome, read) = match l {
                Latch::Executed { outcome, .. } => (Some(outcome), None),
                Latch::Memory { outcome, read, .. } => (Some(outcome), Some(read)),
                Latch::WrittenBack { outcome, read, .. } => (Some(outcome), Some(read)),
                _ => (None, None),
            };
            match outcome {
                // Forwarded results are already checked
                Some(ExecRes::Alu { dest, res: Some(res) }) => {
                    regs.general[dest] = res;
                },
                Some(ExecRes::MulDiv { hi, lo }) => {
                    regs.hi = hi;
                    regs.lo = lo;
                },
                Some(ExecRes::Mfc0 { dest, from }) => {
                    regs.general[dest] = cop0.regs[from];
                },
                Some(ExecRes::Load { dest, .. }) => match read {
                    Some(read) => {
                        regs.general[dest] = read;
                    },
                    None => {},
                },
                _ => {},
            }
        },
        None => {},
    }
    // Always
    regs.general[0] = 0;
    proof {
        assert(regs.general =~= forwarded(input, latch, *cop0).general);
    }
    regs
}

impl State {

    /// One cycle: fetch, decode, execute, memory and write-back, then the
    /// oldest failure, if any, flushes the pipeline and is returned as the
    /// exception to take.
    pub fn run(&mut self, cpu: &mut Cpu, bus: &mut Bus) -> (r: Result<(), (bool, u32, Exception)>)
        requires
            old(self).wf(),
            old(bus)@.wf(),
            run_defined(old(self).model(), *old(cpu), old(bus)@),
        ensures
            final(self).wf(),
            final(bus)@.wf(),
            (r, final(self).model(), *final(cpu), final(bus)@) == run_spec(
                old(self).model(),
                *old(cpu),
                old(bus)@,
            ),
    {
        let mut pc = cpu.pc;
        let fetch = self.fetch(&mut pc, &cpu.cop0, bus);
        cpu.pc = pc;
        let regs = Registers { general: cpu.gpr, pc: cpu.pc, hi: cpu.hi, lo: cpu.lo };
        let decode = self.decode(&regs);
        let execute = self.execute(&mut cpu.pc, &mut cpu.cop0);
        let mem = self.memory(bus, &mut cpu.cop0);
        let mut regs = Registers { general: cpu.gpr, pc: cpu.pc, hi: cpu.hi, lo: cpu.lo };
        self.writeback(&mut regs);
        cpu.gpr = regs.general;
        cpu.hi = regs.hi;
        cpu.lo = regs.lo;

        let (err, flush_count) = match mem {
            Err(err) => (err, 4usize),
            Ok(()) => match execute {
                Err(err) => (err, 3usize),
                Ok(()) => match decode {
                    Err(err) => (err, 2usize),
                    Ok(()) => match fetch {
                        Err(err) => (err, 1usize),
                        Ok(()) => return Ok(()),
                    },
                },
            },
        };

        let has_delay_slot = self.flush(flush_count);
        let exception = match err.kind {
            ErrorKind::InvalidInstruction(_) => Exception::ReservedInstruction,
            ErrorKind::AluOverflow => Exception::Overflow,
            ErrorKind::Break => Exception::Break,
            ErrorKind::Syscall => Exception::Syscall,
            ErrorKind::Interrupt => Exception::Interrupt,
            ErrorKind::MemoryLoad(e) if e.kind == BusErrorKind::UnalignedAddr => {
                Exception::UnalignedLoad { bad_vaddr: e.bad_vaddr }
            },
            ErrorKind::InsLoad(e) if e.kind == BusErrorKind::UnalignedAddr => {
                Exception::UnalignedLoad { bad_vaddr: e.bad_vaddr }
            },
            ErrorKind::MemoryStore(e) if e.kind == BusErrorKind::UnalignedAddr => {
                Exception::UnalignedStore { bad_vaddr: e.bad_vaddr }
            },
            ErrorKind::InsLoad(e) => Exception::InstructionBus { bad_vaddr: e.bad_vaddr },
            ErrorKind::MemoryLoad(e) => Exception::DataBus { bad_vaddr: e.bad_vaddr },
            ErrorKind::MemoryStore(e) => Exception::DataBus { bad_vaddr: e.bad_vaddr },
        };
        Err((has_delay_slot, err.pc, exception))
    }

    /// Fetch. Read an instruction and increment PC (program count).
    /// May be interrupted from the outside.
    fn fetch(&mut self, pc: &mut u32, cop0: &Cop0, bus: &mut Bus) -> (r: Result<(), Error>)
        requires
            old(self).wf(),
            old(bus)@.wf(),
            !cop0.spec_interrupt_pending() ==> load_defined(old(bus)@, *old(pc), 4),
        ensures
            final(self).wf(),
            final(bus)@.wf(),
            (r, final(self).model(), *final(pc), final(bus)@) == fetch_stage(
                old(self).model(),
                *old(pc),
                *cop0,
                old(bus)@,
            ),
    {
        // Here for simplicity, will be handled as an exception
        // (IF's PC is saved to EPC, or ID if branch)
        if cop0.interrupt_pending() {
            return Err(Error { pc: *pc, kind: ErrorKind::Interrupt });
        }
        let fetched = bus.load::<4>(*pc);
        let bytes = match fetched {
            Ok(bytes) => bytes,
            Err(err) => return Err(Error { pc: *pc, kind: ErrorKind::InsLoad(err) }),
        };
        let ins = crate::devices::le_word(bytes);
        latch_queue_push_front(&mut self.queue, Latch::Fetched { pc: *pc, ins });
        *pc = pc.wrapping_add(4);
        proof {
            let q = old(self).model();
            let q1 = self.model();
            assert forall|i: int| 0 <= i < STAGES implies latch_wf(#[trigger] q1[i]) by {
                if i > 0 {
                    assert(q1[i] == q[i - 1]);
                }
            }
        }
        Ok(())
    }

    /// Decode operation and save snapshot of registers.
    fn decode(&mut self, regs: &Registers) -> (r: Result<(), Error>)
        requires
            old(self).wf(),
        ensures
            final(self).wf(),
            (r, final(self).model()) == decode_stage(old(self).model(), *regs),
    {
        match latch_queue_get(&self.queue, 1) {
            Some(Latch::Fetched { pc, ins }) => {
                let op = match Opcode::decode(ins) {
                    Some(op) => op,
                    None => return Err(Error { pc, kind: ErrorKind::InvalidInstruction(ins) }),
                };
                latch_queue_set(&mut self.queue, 1, Latch::Decoded { pc, ins, op, regs: *regs });
                proof {
                    let q1 = self.model();
                    assert forall|i: int| 0 <= i < STAGES implies latch_wf(#[trigger] q1[i]) by {
                        if i != 1 {
                            assert(q1[i] == old(self).model()[i]);
                        }
                    }
                }
            },
            _ => {},
        }
        Ok(())
    }


    /// Execute jumps and branches.
    /// Used instead of emulating branch delay slot.
    fn execute(&mut self, next_pc: &mut u32, cop0: &mut Cop0) -> (r: Result<(), Error>)
        requires
            old(self).wf(),
            execute_defined(old(self).model()),
        ensures
            final(self).wf(),
            (r, final(self).model(), *final(next_pc), *final(cop0)) == execute_stage(
                old(self).model(),
                *old(next_pc),
                *old(cop0),
            ),
    {
        let ghost q0 = self.model();
        let mut jump_addr: Option<u32> = None;
        let s5 = latch_queue_get(&self.queue, 5);
        let s4 = latch_queue_get(&self.queue, 4);
        let s3 = latch_queue_get(&self.queue, 3);
        proof {
            assert(latch_wf(q0[5]) && latch_wf(q0[4]) && latch_wf(q0[3]));
        }
        match latch_queue_get(&self.queue, 2) {
            Some(Latch::Decoded { pc, ins, op, regs }) => {
                // Forwarding of results from the next stages into registers.
                // Register file isn't touched, because pending ops (in MEM) may fail, so
                // pipeline will run from the previous place (and with the registers as they were).
                let regs = forward(regs, s5, cop0);
                let regs = forward(regs, s4, cop0);
                let regs = forward(regs, s3, cop0);
                let res = ops::execute(ins, op, &regs);
                proof {
                    ops::lemma_execute_wf(ins, op, regs);
                }
                match res {
                    ExecRes::Jump { addr, .. } => {
                        jump_addr = Some(addr);
                    },
                    ExecRes::Branch { addr, .. } => {
                        jump_addr = addr;
                    },
                    ExecRes::Alu { res: None, .. } => {
                        return Err(Error { pc, kind: ErrorKind::AluOverflow });
                    },
                    ExecRes::Break => {
                        return Err(Error { pc, kind: ErrorKind::Break });
                    },
                    ExecRes::Syscall => {
                        return Err(Error { pc, kind: ErrorKind::Syscall });
                    },
                    ExecRes::Rfe => {
                        cop0.exception_leave();
                        proof {
                            assert(cop0.regs =~= spec_array_update(
                                old(cop0).regs,
                                STATUS_IDX as int,
                                status_pop(old(cop0).regs[STATUS_IDX as int]),
                            ));
                        }
                    },
                    _ => {},
                }
                latch_queue_set(&mut self.queue, 2, Latch::Executed { pc, op, outcome: res });
                proof {
                    let q1 = self.model();
                    assert forall|i: int| 0 <= i < STAGES implies latch_wf(#[trigger] q1[i]) by {
                        if i != 2 {
                            assert(q1[i] == q0[i]);
                        }
                    }
                }
            },
            _ => {},
        }
        match jump_addr {
            Some(addr) => {
                // Flush pre-fetched, but keep decoded (so called delay slot)
                let ghost q1 = self.model();
                latch_queue_set(&mut self.queue, 0, Latch::Flushed);
                *next_pc = addr;
                proof {
                    let q2 = self.model();
                    assert forall|i: int| 0 <= i < STAGES implies latch_wf(#[trigger] q2[i]) by {
                        if i != 0 {
                            assert(q2[i] == q1[i]);
                        }
                    }
                }
            },
            None => {},
        }
        Ok(())
    }

    /// Operations with memory like load/store. Eliminate need for load-delay slot.
    fn memory(&mut self, bus: &mut Bus, cop0: &mut Cop0) -> (r: Result<(), Error>)
        requires
            old(self).wf(),
            old(bus)@.wf(),
            memory_defined(old(self).model(), old(bus)@, *old(cop0)),
        ensures
            final(self).wf(),
            final(bus)@.wf(),
            (r, final(self).model(), final(bus)@, *final(cop0)) == memory_stage(
                old(self).model(),
                old(bus)@,
                *old(cop0),
            ),
    {
        let ghost q0 = self.model();
        match latch_queue_get(&self.queue, 3) {
            Some(Latch::Executed { pc, op, outcome }) => {
                proof {
                    assert(latch_wf(q0[3]));
                }
                let mut read: u32 = 0;
                match outcome {
                    ExecRes::Load { addr, kind, .. } => {
                        read = match kind {
                            LoadKind::IByte => match bus.load::<1>(addr) {
                                Ok(b) => (b[0] as i8) as u32,
                                Err(err) => {
                                    return Err(Error { pc, kind: ErrorKind::MemoryLoad(err) });
                                },
                            },
                            LoadKind::IHalf => match bus.load::<2>(addr) {
                                Ok(b) => {
                                    let h: u16 = (b[0] as u16) | ((b[1] as u16) << 8u16);
                                    (h as i16) as u32
                                },
                                Err(err) => {
                                    return Err(Error { pc, kind: ErrorKind::MemoryLoad(err) });
                                },
                            },
                            LoadKind::UByte => match bus.load::<1>(addr) {
                                Ok(b) => b[0] as u32,
                                Err(err) => {
                                    return Err(Error { pc, kind: ErrorKind::MemoryLoad(err) });
                                },
                            },
                            LoadKind::UHalf => match bus.load::<2>(addr) {
                                Ok(b) => {
                                    let h: u16 = (b[0] as u16) | ((b[1] as u16) << 8u16);
                                    h as u32
                                },
                                Err(err) => {
                                    return Err(Error { pc, kind: ErrorKind::MemoryLoad(err) });
                                },
                            },
                            LoadKind::Word => match bus.load::<4>(addr) {
                                Ok(b) => crate::devices::le_word(b),
                                Err(err) => {
                                    return Err(Error { pc, kind: ErrorKind::MemoryLoad(err) });
                                },
                            },
                            _ => vstd::pervasive::unreached(),
                        };
                    },
                    ExecRes::Store { addr, kind } => {
                        if !cop0.status().isc() {
                            let stored = match kind {
                                StoreKind::Byte(v) => {
                                    let bytes: [u8; 1] = [v];
                                    proof {
                                        assert(bytes@ =~= stored_bytes(kind));
                                    }
                                    bus.store::<1>(addr, bytes)
                                },
                                StoreKind::Half(v) => {
                                    let bytes: [u8; 2] = [v as u8, (v >> 8u16) as u8];
                                    proof {
                                        assert(bytes@ =~= stored_bytes(kind));
                                    }
                                    bus.store::<2>(addr, bytes)
                                },
                                StoreKind::Word(v) => bus.store::<4>(addr, crate::devices::le_bytes(v)),
                                _ => vstd::pervasive::unreached(),
                            };
                            match stored {
                                Ok(()) => {},
                                Err(err) => {
                                    return Err(Error { pc, kind: ErrorKind::MemoryStore(err) });
                                },
                            }
                        }
                    },
                    ExecRes::Mfc0 { from, .. } => {
                        read = cop0.regs[from];
                    },
                    ExecRes::Mtc0 { dest, res } => {
                        cop0.regs[dest] = res;
                        proof {
                            assert(cop0.regs =~= spec_array_update(old(cop0).regs, dest as int, res));
                        }
                    },
                    _ => {},
                }
                latch_queue_set(&mut self.queue, 3, Latch::Memory { pc, op, outcome, read });
                proof {
                    let q1 = self.model();
                    assert forall|i: int| 0 <= i < STAGES implies latch_wf(#[trigger] q1[i]) by {
                        if i != 3 {
                            assert(q1[i] == q0[i]);
                        }
                    }
                }
            },
            _ => {},
        }
        Ok(())
    }

    /// Write to register file.
    fn writeback(&mut self, regs: &mut Registers)
        requires
            old(self).wf(),
            writeback_defined(old(self).model()),
        ensures
            final(self).wf(),
            (final(self).model(), *final(regs)) == writeback_stage(old(self).model(), *old(regs)),
    {
        match latch_queue_get(&self.queue, 4) {
            Some(Latch::Memory { pc, op, outcome, read }) => {
                proof {
                    assert(latch_wf(self.model()[4]));
                }
                match outcome {
                    ExecRes::Alu { dest, res: Some(res) } => {
                        // No overflow, because checked already
                        regs.general[dest] = res;
                    },
                    ExecRes::MulDiv { hi, lo } => {
                        regs.hi = hi;
                        regs.lo = lo;
                    },
                    ExecRes::Branch { link: true, .. } => {
                        regs.general[31] = pc + 8;
                    },
                    ExecRes::Jump { link: true, link_reg, .. } => {
                        regs.general[link_reg] = pc + 8;
                    },
                    ExecRes::Load { dest, .. } | ExecRes::Mfc0 { dest, .. } => {
                        regs.general[dest] = read;
                    },
                    _ => {},
                }
                // Always zero
                regs.general[0] = 0;
                latch_queue_set(&mut self.queue, 4, Latch::WrittenBack { op, outcome, read });
                proof {
                    let q1 = self.model();
                    assert forall|i: int| 0 <= i < STAGES implies latch_wf(#[trigger] q1[i]) by {
                        if i != 4 {
                            assert(q1[i] == old(self).model()[i]);
                        }
                    }
                    let w = writeback_stage(old(self).model(), *old(regs));
                    assert(regs.general =~= w.1.general);
                }
            },
            _ => {},
        }
    }

    /// Flush the pipeline with `count` of instructions.
    /// If the next stage is branch or jump, flush it too.
    /// Returns true if the last flushed op is in branch delay slot.
    fn flush(&mut self, count: usize) -> (r: bool)
        requires
            old(self).wf(),
            1 <= count <= 4,
        ensures
            final(self).wf(),
            (r, final(self).model()) == flush_stage(old(self).model(), count as int),
    {
        let ghost q0 = self.model();
        let mut i: usize = 0;
        while i < count
            invariant
                0 <= i <= count <= 4,
                self.wf(),
                forall|j: int| 0 <= j < STAGES ==> #[trigger] self.model()[j] == (if j < i {
                    Latch::Flushed
                } else {
                    q0[j]
                }),
            decreases count - i,
        {
            latch_queue_set(&mut self.queue, i, Latch::Flushed);
            proof {
                let q1 = self.model();
                assert forall|j: int| 0 <= j < STAGES implies latch_wf(#[trigger] q1[j]) by {}
            }
            i = i + 1;
        }
        let ghost q1 = Seq::new(q0.len(), |j: int| if j < count { Latch::Flushed } else { q0[j] });
        assert(self.model() =~= q1);

        // Flush branch/jump operation older than failed delay slot and save its PC
        let mut parent = false;
        let op = match latch_queue_get(&self.queue, count) {
            Some(Latch::Decoded { op, .. }) if count == 1 => Some(op),
            Some(Latch::Executed { op, .. }) if count == 2 => Some(op),
            Some(Latch::Memory { op, .. }) if count == 3 => Some(op),
            Some(Latch::WrittenBack { op, .. }) if count == 4 => Some(op),
            _ => None,
        };
        match op {
            Some(op) => {
                if op.has_branch_delay() {
                    parent = true;
                    latch_queue_set(&mut self.queue, count, Latch::Flushed);
                    proof {
                        let q2 = self.model();
                        assert forall|j: int| 0 <= j < STAGES implies latch_wf(#[trigger] q2[j]) by {
                            if j != count {
                                assert(q2[j] == q1[j]);
                            }
                        }
                    }
                }
            },
            None => {},
        }
        parent
    }
}


/// Register zero reads as zero from one cycle of the pipeline to the next.
pub proof fn law_run_keeps_zero(q: Seq<Latch>, c: Cpu, b: BusModel)
    requires
        c.gpr[0] == 0,
    ensures
        run_spec(q, c, b).2.gpr[0] == 0,
{
}

} // verus!
