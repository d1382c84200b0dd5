use vstd::prelude::*;

use vstd::array::spec_array_update;

use crate::bits::{
    field_rd, field_rs, field_rt, field_target, hi_lo, lemma_fields, lemma_sext16, lemma_wrapping,
    lemma_wrapping_add, rem_trunc, div_trunc, signed, simm, wrap32,
};
use crate::cpu::cop0::{status_pop, STATUS_IDX};
use crate::cpu::ins::{evaluate_alu_spec, OpResult};
use crate::cpu::{Cpu, Exception, Opcode, PendingJump, PendingLoad, Registers, DEFAULT_LINK_REG};
use crate::devices::{word_bytes, word_of};
use super::decoder::Operation;
use super::{ExecutionResult, Executor};
use crate::interconnect::{
    load_defined, load_spec, store_defined, store_spec, Bus, BusError, BusErrorKind, BusModel,
};




verus! {

broadcast use vstd::array::group_array_axioms;

/// Executes blocks of decoded instructions one by one.
#[derive(Debug)]
pub struct Interpreter;

impl Default for Interpreter {
    fn default() -> (r: Self) {
        Interpreter
    }
}

/// The registers that an instruction of the interpreter reads.
pub open spec fn regs_of(c: Cpu) -> Registers {
    Registers { general: c.gpr, pc: 0, hi: c.hi, lo: c.lo }
}

/// The CPU with general register `i` set to `v`.
pub open spec fn with_gpr(c: Cpu, i: int, v: u32) -> Cpu {
    Cpu { gpr: spec_array_update(c.gpr, i, v), ..c }
}

/// The CPU after the load in its load delay slot reached its register;
/// register 0 stays zero.
pub open spec fn commit_load(c: Cpu, ld: PendingLoad) -> Cpu {
    with_gpr(with_gpr(c, ld.dest as int, ld.value), 0, 0)
}

pub open spec fn load_exception(e: BusError) -> Exception {
    match e.kind {
        BusErrorKind::UnalignedAddr => Exception::UnalignedLoad { bad_vaddr: e.bad_vaddr },
        _ => Exception::DataBus { bad_vaddr: e.bad_vaddr },
    }
}

pub open spec fn store_exception(e: BusError) -> Exception {
    match e.kind {
        BusErrorKind::UnalignedAddr => Exception::UnalignedStore { bad_vaddr: e.bad_vaddr },
        _ => Exception::DataBus { bad_vaddr: e.bad_vaddr },
    }
}

/// Loads handled by the interpreter.
pub open spec fn is_load(op: Opcode) -> bool {
    op == Opcode::Lw || op == Opcode::Lh || op == Opcode::Lhu || op == Opcode::Lb || op
        == Opcode::Lbu
}

/// Stores handled by the interpreter.
pub open spec fn is_store(op: Opcode) -> bool {
    op == Opcode::Sw || op == Opcode::Sh || op == Opcode::Sb
}

/// Bytes a load or store moves.
pub open spec fn access_size(op: Opcode) -> nat {
    if op == Opcode::Lw || op == Opcode::Sw {
        4
    } else if op == Opcode::Lh || op == Opcode::Lhu || op == Opcode::Sh {
        2
    } else {
        1
    }
}

/// A half word (little-endian bytes) widened to a word: sign-extended for LH,
/// zero-extended for LHU.
pub open spec fn half_value(op: Opcode, b0: u8, b1: u8) -> u32 {
    let h = (b0 as u32) | ((b1 as u32) << 8u32);
    if op == Opcode::Lh && b1 >= 0x80 {
        h | 0xFFFF_0000u32
    } else {
        h
    }
}

/// A byte widened to a word: sign-extended for LB, zero-extended for LBU.
pub open spec fn byte_value(op: Opcode, b: u8) -> u32 {
    if op == Opcode::Lb && b >= 0x80 {
        (b as u32) | 0xFFFF_FF00u32
    } else {
        b as u32
    }
}

/// The value a load puts in its register: the word, or the half word or byte
/// sign-extended (LH, LB) or zero-extended (LHU, LBU).
pub open spec fn load_value(op: Opcode, bytes: Seq<u8>) -> u32 {
    if op == Opcode::Lw {
        word_of(bytes)
    } else if op == Opcode::Lh || op == Opcode::Lhu {
        half_value(op, bytes[0], bytes[1])
    } else {
        byte_value(op, bytes[0])
    }
}

/// The bytes a store writes: the low bytes of the register.
pub open spec fn store_bytes(op: Opcode, t: u32) -> Seq<u8> {
    word_bytes(t).take(access_size(op) as int)
}

/// Effective address of a load or store.
pub open spec fn effective_address(ins: u32, c: Cpu) -> u32 {
    wrap32(c.gpr[field_rs(ins) as int] + simm(ins))
}

/// Target of a branch at `pc`: the delay slot plus four times the offset.
pub open spec fn branch_to(pc: u32, ins: u32) -> u32 {
    wrap32(pc + 4 + 4 * simm(ins))
}

/// Whether a branch is taken.
pub open spec fn branch_taken(op: Opcode, s: u32, t: u32) -> bool {
    match op {
        Opcode::Beq => s == t,
        Opcode::Bne => s != t,
        Opcode::Blez => signed(s) <= 0,
        Opcode::Bgtz => signed(s) > 0,
        Opcode::Bltz | Opcode::Bltzal => signed(s) < 0,
        _ => signed(s) >= 0,
    }
}

/// HI and LO after a multiply or divide. A division by zero, and the
/// overflowing signed one, leave the dividend in HI and the divisor in LO.
pub open spec fn mul_div(op: Opcode, s: u32, t: u32) -> (u32, u32) {
    match op {
        Opcode::Mult => hi_lo(signed(s) * signed(t)),
        Opcode::Multu => hi_lo(s * t),
        Opcode::Div => if t == 0 || (s == 0x8000_0000 && t == 0xFFFF_FFFF) {
            (s, t)
        } else {
            (wrap32(rem_trunc(signed(s), signed(t))), wrap32(div_trunc(signed(s), signed(t))))
        },
        _ => if t == 0 {
            (s, t)
        } else {
            ((s % t) as u32, (s / t) as u32)
        },
    }
}

/// What instruction `op` (encoded in `ins`, at `pc`) does to a CPU whose load
/// delay slot was already taken, and to the bus.
pub open spec fn op_effect(pc: u32, ins: u32, op: Opcode, c: Cpu, b: BusModel) -> (
    Result<(), Exception>,
    Cpu,
    BusModel,
) {
    let s = c.gpr[field_rs(ins) as int];
    let t = c.gpr[field_rt(ins) as int];
    let ea = effective_address(ins, c);
    if op.spec_is_alu() {
        match evaluate_alu_spec(op, ins, regs_of(c)) {
            OpResult::Alu { dest, res: Some(v) } => (Ok(()), with_gpr(c, dest as int, v), b),
            _ => (Err(Exception::Overflow), c, b),
        }
    } else if is_load(op) {
        let (r, b1) = load_spec(b, ea, access_size(op));
        match r {
            Ok(bytes) => (
                Ok(()),
                Cpu {
                    pending_load: PendingLoad { dest: field_rt(ins), value: load_value(op, bytes) },
                    ..c
                },
                b1,
            ),
            Err(e) => (Err(load_exception(e)), c, b1),
        }
    } else if op == Opcode::Sw || op == Opcode::Sh || op == Opcode::Sb || op == Opcode::Swl || op
        == Opcode::Swr {
        if c.cop0.spec_status().spec_isc() {
            // Stores are ignored while the cache is isolated
            (Ok(()), c, b)
        } else {
            let (r, b1) = store_spec(b, ea, store_bytes(op, t));
            match r {
                Ok(()) => (Ok(()), c, b1),
                Err(e) => (Err(store_exception(e)), c, b1),
            }
        }
    } else if op.spec_is_branch() {
        // A branch-and-link writes the link register first; the test reads
        // the registers after that write.
        let c1 = if op == Opcode::Bgezal || op == Opcode::Bltzal {
            with_gpr(c, DEFAULT_LINK_REG as int, (pc + 8) as u32)
        } else {
            c
        };
        (
            Ok(()),
            Cpu {
                pending_jump: PendingJump {
                    happen: branch_taken(op, c1.gpr[field_rs(ins) as int], c1.gpr[field_rt(ins) as int]),
                    target: branch_to(pc, ins),
                },
                ..c1
            },
            b,
        )
    } else {
        match op {
            Opcode::J | Opcode::Jal => {
                let c1 = if op == Opcode::Jal {
                    with_gpr(c, DEFAULT_LINK_REG as int, pc.wrapping_add(8))
                } else {
                    c
                };
                let target = (pc.wrapping_add(4) & 0xF000_0000u32) | (field_target(ins) << 2u32);
                (Ok(()), Cpu { pending_jump: PendingJump { happen: true, target }, ..c1 }, b)
            },
            Opcode::Jr => (Ok(()), Cpu { pending_jump: PendingJump { happen: true, target: s }, ..c }, b),
            Opcode::Jalr => {
                // The target is read after the link register was written
                let c1 = with_gpr(c, field_rd(ins) as int, pc.wrapping_add(8));
                (
                    Ok(()),
                    Cpu {
                        pending_jump: PendingJump { happen: true, target: c1.gpr[field_rs(ins) as int] },
                        ..c1
                    },
                    b,
                )
            },
            Opcode::Mult | Opcode::Multu | Opcode::Div | Opcode::Divu => {
                let (hi, lo) = mul_div(op, s, t);
                (Ok(()), Cpu { hi, lo, ..c }, b)
            },
            Opcode::Mtlo => (Ok(()), Cpu { lo: s, ..c }, b),
            Opcode::Mthi => (Ok(()), Cpu { hi: s, ..c }, b),
            Opcode::Mfc0 => (
                Ok(()),
                Cpu {
                    pending_load: PendingLoad {
                        dest: field_rt(ins),
                        value: c.cop0.regs[field_rd(ins) as int],
                    },
                    ..c
                },
                b,
            ),
            Opcode::Mtc0 => (
                Ok(()),
                Cpu {
                    cop0: crate::cpu::Cop0 { regs: spec_array_update(c.cop0.regs, field_rd(ins) as int, t) },
                    ..c
                },
                b,
            ),
            Opcode::Rfe => (
                Ok(()),
                Cpu {
                    cop0: crate::cpu::Cop0 {
                        regs: spec_array_update(
                            c.cop0.regs,
                            STATUS_IDX as int,
                            status_pop(c.cop0.regs[STATUS_IDX as int]),
                        ),
                    },
                    ..c
                },
                b,
            ),
            Opcode::Break => (Err(Exception::Break), c, b),
            _ => (Err(Exception::Syscall), c, b),
        }
    }
}

/// One instruction: the load delay slot is taken first; on success the
/// instruction takes effect and then the delayed load reaches its register.
/// On an exception only the load delay slot is gone.
pub open spec fn exec_spec(pc: u32, ins: u32, op: Opcode, c: Cpu, b: BusModel) -> (
    Result<(), Exception>,
    Cpu,
    BusModel,
) {
    let ld = c.pending_load;
    let c0 = Cpu { pending_load: PendingLoad { dest: 0, value: 0 }, ..c };
    let (r, c1, b1) = op_effect(pc, ins, op, c0, b);
    match r {
        Ok(()) => (Ok(()), commit_load(c1, ld), b1),
        Err(e) => (Err(e), c1, b1),
    }
}

/// Whether the interpreter handles instruction `op` in this state: the
/// unaligned word loads and stores and the coprocessor control moves are not
/// implemented (stores are, while the cache is isolated, since they are then
/// ignored), a branch-and-link does not sit at the top of the address space,
/// and the bus handles the access.
pub open spec fn exec_defined(pc: u32, ins: u32, op: Opcode, c: Cpu, b: BusModel) -> bool {
    let isc = c.cop0.spec_status().spec_isc();
    let ea = effective_address(ins, c);
    &&& c.pending_load.dest < 32
    &&& b.wf()
    &&& op != Opcode::Lwl && op != Opcode::Lwr && op != Opcode::Cfc0 && op != Opcode::Ctc0
    &&& (op == Opcode::Swl || op == Opcode::Swr) ==> isc
    &&& (op == Opcode::Bgezal || op == Opcode::Bltzal) ==> pc <= u32::MAX - 8
    &&& is_load(op) ==> load_defined(b, ea, access_size(op))
    &&& is_store(op) && !isc ==> store_defined(b, ea, store_bytes(op, c.gpr[field_rt(ins) as int]))
}


/// Registers of the CPU as the evaluation of an instruction reads them.
fn regs(cpu: &Cpu) -> (r: Registers)
    ensures
        r == regs_of(*cpu),
{
    Registers { general: cpu.gpr, pc: 0, hi: cpu.hi, lo: cpu.lo }
}

/// Arithmetic, logic, shifts and moves from HI/LO.
fn exec_alu(pc: u32, ins: u32, op: Opcode, cpu: &mut Cpu, bus: &Bus) -> (r: Result<(), Exception>)
    requires
        op.spec_is_alu(),
    ensures
        (r, *final(cpu), bus@) == op_effect(pc, ins, op, *old(cpu), bus@),
{
    proof {
        lemma_fields(ins);
    }
    let regs = regs(cpu);
    match OpResult::evaluate_alu(op, ins, &regs) {
        OpResult::Alu { dest, res: Some(v) } => {
            cpu.gpr[dest] = v;
            Ok(())
        },
        _ => Err(Exception::Overflow),
    }
}

/// Loads: the value goes to the load delay slot.
fn exec_load(pc: u32, ins: u32, op: Opcode, cpu: &mut Cpu, bus: &mut Bus) -> (r: Result<(), Exception>)
    requires
        is_load(op),
        old(bus)@.wf(),
        load_defined(old(bus)@, effective_address(ins, *old(cpu)), access_size(op)),
    ensures
        (r, *final(cpu), final(bus)@) == op_effect(pc, ins, op, *old(cpu), old(bus)@),
        final(bus)@.wf(),
{
    proof {
        lemma_fields(ins);
        lemma_sext16((ins & 0xFFFFu32) as u16);
    }
    let rs: usize = ((ins >> 21u32) & 0x1Fu32) as usize;
    let rt: usize = ((ins >> 16u32) & 0x1Fu32) as usize;
    let imm_sext: u32 = ((ins & 0xFFFFu32) as u16) as i16 as u32;
    let addr: u32 = cpu.gpr[rs].wrapping_add(imm_sext);
    proof {
        lemma_wrapping_add(cpu.gpr[rs as int], simm(ins));
    }
    let value: u32 = if op == Opcode::Lw {
        match bus.load::<4>(addr) {
            Ok(b) => crate::devices::le_word(b),
            Err(e) => return Err(
                if e.kind == BusErrorKind::UnalignedAddr {
                    Exception::UnalignedLoad { bad_vaddr: e.bad_vaddr }
                } else {
                    Exception::DataBus { bad_vaddr: e.bad_vaddr }
                },
            ),
        }
    } else if op == Opcode::Lh || op == Opcode::Lhu {
        match bus.load::<2>(addr) {
            Ok(b) => {
                let h: u32 = (b[0] as u32) | ((b[1] as u32) << 8u32);
                if op == Opcode::Lh && b[1] >= 0x80 {
                    h | 0xFFFF_0000u32
                } else {
                    h
                }
            },
            Err(e) => return Err(
                if e.kind == BusErrorKind::UnalignedAddr {
                    Exception::UnalignedLoad { bad_vaddr: e.bad_vaddr }
                } else {
                    Exception::DataBus { bad_vaddr: e.bad_vaddr }
                },
            ),
        }
    } else {
        match bus.load::<1>(addr) {
            Ok(b) => {
                if op == Opcode::Lb && b[0] >= 0x80 {
                    (b[0] as u32) | 0xFFFF_FF00u32
                } else {
                    b[0] as u32
                }
            },
            Err(e) => return Err(
                if e.kind == BusErrorKind::UnalignedAddr {
                    Exception::UnalignedLoad { bad_vaddr: e.bad_vaddr }
                } else {
                    Exception::DataBus { bad_vaddr: e.bad_vaddr }
                },
            ),
        }
    };
    cpu.pending_load = PendingLoad { dest: rt, value };
    Ok(())
}

/// Stores, ignored while the cache is isolated.
fn exec_store(pc: u32, ins: u32, op: Opcode, cpu: &mut Cpu, bus: &mut Bus) -> (r: Result<(), Exception>)
    requires
        op == Opcode::Sw || op == Opcode::Sh || op == Opcode::Sb || op == Opcode::Swl || op
            == Opcode::Swr,
        (op == Opcode::Swl || op == Opcode::Swr) ==> old(cpu).cop0.spec_status().spec_isc(),
        old(bus)@.wf(),
        !old(cpu).cop0.spec_status().spec_isc() ==> store_defined(
            old(bus)@,
            effective_address(ins, *old(cpu)),
            store_bytes(op, old(cpu).gpr[field_rt(ins) as int]),
        ),
    ensures
        (r, *final(cpu), final(bus)@) == op_effect(pc, ins, op, *old(cpu), old(bus)@),
        final(bus)@.wf(),
{
    if cpu.cop0.status().isc() {
        return Ok(());
    }
    proof {
        lemma_fields(ins);
        lemma_sext16((ins & 0xFFFFu32) as u16);
    }
    let rs: usize = ((ins >> 21u32) & 0x1Fu32) as usize;
    let rt: usize = ((ins >> 16u32) & 0x1Fu32) as usize;
    let imm_sext: u32 = ((ins & 0xFFFFu32) as u16) as i16 as u32;
    let addr: u32 = cpu.gpr[rs].wrapping_add(imm_sext);
    let t: u32 = cpu.gpr[rt];
    proof {
        lemma_wrapping_add(cpu.gpr[rs as int], simm(ins));
    }
    let r = if op == Opcode::Sw {
        let bytes = crate::devices::le_bytes(t);
        proof {
            assert(bytes@ =~= store_bytes(op, t));
        }
        bus.store::<4>(addr, bytes)
    } else if op == Opcode::Sh {
        let bytes: [u8; 2] = [t as u8, (t >> 8u32) as u8];
        proof {
            assert(bytes@ =~= store_bytes(op, t));
        }
        bus.store::<2>(addr, bytes)
    } else {
        let bytes: [u8; 1] = [t as u8];
        proof {
            assert(bytes@ =~= store_bytes(op, t));
        }
        bus.store::<1>(addr, bytes)
    };
    match r {
        Ok(()) => Ok(()),
        Err(e) => Err(
            if e.kind == BusErrorKind::UnalignedAddr {
                Exception::UnalignedStore { bad_vaddr: e.bad_vaddr }
            } else {
                Exception::DataBus { bad_vaddr: e.bad_vaddr }
            },
        ),
    }
}

/// Conditional branches: the target is pending until the delay slot ran.
fn exec_branch(pc: u32, ins: u32, op: Opcode, cpu: &mut Cpu, bus: &Bus) -> (r: Result<(), Exception>)
    requires
        op.spec_is_branch(),
        (op == Opcode::Bgezal || op == Opcode::Bltzal) ==> pc <= u32::MAX - 8,
    ensures
        (r, *final(cpu), bus@) == op_effect(pc, ins, op, *old(cpu), bus@),
{
    proof {
        lemma_fields(ins);
        lemma_sext16((ins & 0xFFFFu32) as u16);
    }
    let rs: usize = ((ins >> 21u32) & 0x1Fu32) as usize;
    let rt: usize = ((ins >> 16u32) & 0x1Fu32) as usize;
    let imm_sext: i32 = ((ins & 0xFFFFu32) as u16) as i16 as i32;
    if op == Opcode::Bgezal || op == Opcode::Bltzal {
        cpu.gpr[DEFAULT_LINK_REG] = pc + 8;
    }
    let s: u32 = cpu.gpr[rs];
    let t: u32 = cpu.gpr[rt];
    proof {
        crate::bits::lemma_signed(s);
    }
    let happen = match op {
        Opcode::Beq => s == t,
        Opcode::Bne => s != t,
        Opcode::Blez => (s as i32) <= 0,
        Opcode::Bgtz => (s as i32) > 0,
        Opcode::Bltz | Opcode::Bltzal => (s as i32) < 0,
        _ => (s as i32) >= 0,
    };
    let target: u32 = pc.wrapping_add(4).wrapping_add_signed(imm_sext * 4);
    proof {
        assert(target == branch_to(pc, ins)) by {
            let p4 = pc.wrapping_add(4);
            lemma_wrapping(pc, 4);
        }
    }
    cpu.pending_jump = PendingJump { happen, target };
    Ok(())
}

/// Jumps, multiply/divide, moves, return from exception and traps.
fn exec_other(pc: u32, ins: u32, op: Opcode, cpu: &mut Cpu, bus: &Bus) -> (r: Result<(), Exception>)
    requires
        !op.spec_is_alu(),
        !op.spec_is_branch(),
        !is_load(op),
        op != Opcode::Sw && op != Opcode::Sh && op != Opcode::Sb && op != Opcode::Swl && op
            != Opcode::Swr,
        op != Opcode::Lwl && op != Opcode::Lwr && op != Opcode::Cfc0 && op != Opcode::Ctc0,
    ensures
        (r, *final(cpu), bus@) == op_effect(pc, ins, op, *old(cpu), bus@),
{
    proof {
        lemma_fields(ins);
    }
    let rs: usize = ((ins >> 21u32) & 0x1Fu32) as usize;
    let rt: usize = ((ins >> 16u32) & 0x1Fu32) as usize;
    let rd: usize = ((ins >> 11u32) & 0x1Fu32) as usize;
    let target: u32 = ins & 0x03FF_FFFFu32;
    let s: u32 = cpu.gpr[rs];
    let t: u32 = cpu.gpr[rt];
    match op {
        Opcode::J => {
            cpu.pending_jump = PendingJump {
                happen: true,
                target: (pc.wrapping_add(4) & 0xF000_0000u32) | (target << 2u32),
            };
        },
        Opcode::Jal => {
            cpu.gpr[DEFAULT_LINK_REG] = pc.wrapping_add(8);
            cpu.pending_jump = PendingJump {
                happen: true,
                target: (pc.wrapping_add(4) & 0xF000_0000u32) | (target << 2u32),
            };
        },
        Opcode::Jr => {
            cpu.pending_jump = PendingJump { happen: true, target: s };
        },
        Opcode::Jalr => {
            cpu.gpr[rd] = pc.wrapping_add(8);
            cpu.pending_jump = PendingJump { happen: true, target: cpu.gpr[rs] };
        },
        Opcode::Mult => {
            let (hi, lo) = crate::cpu::ins::mult_signed(s, t);
            cpu.hi = hi;
            cpu.lo = lo;
        },
        Opcode::Multu => {
            let (hi, lo) = crate::cpu::ins::mult_unsigned(s, t);
            cpu.hi = hi;
            cpu.lo = lo;
        },
        Opcode::Div => {
            // Overflow or division by zero
            let (hi, lo) = match crate::cpu::ins::div_signed(s, t) {
                Some(res) => res,
                None => (s, t),
            };
            cpu.hi = hi;
            cpu.lo = lo;
        },
        Opcode::Divu => {
            let (hi, lo) = if t == 0 {
                (s, t)
            } else {
                (s % t, s / t)
            };
            cpu.hi = hi;
            cpu.lo = lo;
        },
        Opcode::Mtlo => {
            cpu.lo = s;
        },
        Opcode::Mthi => {
            cpu.hi = s;
        },
        Opcode::Mfc0 => {
            cpu.pending_load = PendingLoad { dest: rt, value: cpu.cop0.regs[rd] };
        },
        Opcode::Mtc0 => {
            cpu.cop0.regs[rd] = t;
        },
        Opcode::Rfe => {
            cpu.cop0.exception_leave();
            proof {
                assert(cpu.cop0.regs =~= spec_array_update(old(cpu).cop0.regs, STATUS_IDX as int, status_pop(old(cpu).cop0.regs[STATUS_IDX as int])));
            }
        },
        Opcode::Break => {
            return Err(Exception::Break);
        },
        _ => {
            return Err(Exception::Syscall);
        },
    }
    Ok(())
}

/// Execute one instruction `op` (encoded in `ins`, at address `pc`).
pub fn execute(pc: u32, ins: u32, op: Opcode, cpu: &mut Cpu, bus: &mut Bus) -> (r: Result<
    (),
    Exception,
>)
    requires
        exec_defined(pc, ins, op, *old(cpu), old(bus)@),
    ensures
        (r, *final(cpu), final(bus)@) == exec_spec(pc, ins, op, *old(cpu), old(bus)@),
        final(bus)@.wf(),
        final(cpu).pending_load.dest < 32,
{
    let load_delay_slot = cpu.pending_load;
    cpu.pending_load = PendingLoad { dest: 0, value: 0 };
    proof {
        lemma_fields(ins);
    }
    let r = if op.is_alu() {
        exec_alu(pc, ins, op, cpu, bus)
    } else if op == Opcode::Lw || op == Opcode::Lh || op == Opcode::Lhu || op == Opcode::Lb || op
        == Opcode::Lbu {
        exec_load(pc, ins, op, cpu, bus)
    } else if op == Opcode::Sw || op == Opcode::Sh || op == Opcode::Sb || op == Opcode::Swl || op
        == Opcode::Swr {
        exec_store(pc, ins, op, cpu, bus)
    } else if op.is_branch() {
        exec_branch(pc, ins, op, cpu, bus)
    } else {
        exec_other(pc, ins, op, cpu, bus)
    };
    match r {
        Err(e) => return Err(e),
        Ok(()) => {},
    }
    cpu.gpr[load_delay_slot.dest] = load_delay_slot.value;
    cpu.gpr[0] = 0;
    Ok(())
}


/// Running the operations of a block from index `i` on, with the outcome
/// `res` so far: each instruction records its address and delay-slot flag;
/// the first exception (of an instruction, or the one a decoded break carries)
/// stops the block.
pub open spec fn run_rec(ops: Seq<Operation>, i: nat, c: Cpu, b: BusModel, res: ExecutionResult) -> (
    ExecutionResult,
    Cpu,
    BusModel,
)
    decreases ops.len() - i,
{
    if i >= ops.len() {
        (res, c, b)
    } else {
        match ops[i as int] {
            Operation::Instruction { pc, in_delay_slot, ins, op } => {
                let res1 = ExecutionResult { last_pc: pc, last_in_delay_slot: in_delay_slot, ..res };
                let (r, c1, b1) = exec_spec(pc, ins, op, c, b);
                match r {
                    Err(e) => (ExecutionResult { exception: Some(e), ..res1 }, c1, b1),
                    Ok(()) => run_rec(ops, i + 1, c1, b1, res1),
                }
            },
            Operation::Break { pc, in_delay_slot, cause } => (
                ExecutionResult { last_pc: pc, last_in_delay_slot: in_delay_slot, exception: Some(cause) },
                c,
                b,
            ),
        }
    }
}

/// Whether every instruction that the run reaches is one the interpreter handles.
pub open spec fn run_rec_defined(ops: Seq<Operation>, i: nat, c: Cpu, b: BusModel) -> bool
    decreases ops.len() - i,
{
    if i >= ops.len() {
        true
    } else {
        match ops[i as int] {
            Operation::Instruction { pc, in_delay_slot, ins, op } => {
                exec_defined(pc, ins, op, c, b) && {
                    let (r, c1, b1) = exec_spec(pc, ins, op, c, b);
                    r is Ok ==> run_rec_defined(ops, i + 1, c1, b1)
                }
            },
            Operation::Break { .. } => true,
        }
    }
}

/// The outcome a run starts from: the PC of the CPU, no delay slot, no exception.
pub open spec fn initial_result(c: Cpu) -> ExecutionResult {
    ExecutionResult { last_pc: c.pc, last_in_delay_slot: false, exception: None }
}

impl Executor for Interpreter {
    open spec fn run_defined(&self, ops: Seq<Operation>, cpu: Cpu, bus: BusModel) -> bool {
        run_rec_defined(ops, 0, cpu, bus)
    }

    open spec fn run_model(&self, ops: Seq<Operation>, cpu: Cpu, bus: BusModel) -> (
        ExecutionResult,
        Cpu,
        BusModel,
    ) {
        run_rec(ops, 0, cpu, bus, initial_result(cpu))
    }

    fn run(&mut self, ins_block: &[Operation], cpu: &mut Cpu, bus: &mut Bus) -> (r: ExecutionResult) {
        let mut result = ExecutionResult {
            last_pc: cpu.pc,
            // Branch delay is cancelled (exception) or handled in other block
            last_in_delay_slot: false,
            exception: None,
        };
        let ghost full = run_rec(ins_block@, 0, *cpu, bus@, result);
        let mut i: usize = 0;
        while i < ins_block.len()
            invariant_except_break
                i <= ins_block@.len(),
                run_rec_defined(ins_block@, i as nat, *cpu, bus@),
                full == run_rec(ins_block@, i as nat, *cpu, bus@, result),
            invariant
                bus@.wf(),
                cpu.wf(),
            ensures
                full == (result, *cpu, bus@),
            decreases ins_block@.len() - i,
        {
            match ins_block[i] {
                Operation::Instruction { pc, in_delay_slot, ins, op } => {
                    result.last_pc = pc;
                    result.last_in_delay_slot = in_delay_slot;
                    match execute(pc, ins, op, cpu, bus) {
                        Err(exception) => {
                            result.exception = Some(exception);
                            break;
                        },
                        Ok(()) => {},
                    }
                },
                Operation::Break { pc, in_delay_slot, cause } => {
                    result.last_pc = pc;
                    result.last_in_delay_slot = in_delay_slot;
                    result.exception = Some(cause);
                    break;
                },
            }
            i = i + 1;
        }
        result
    }
}


/// Register zero reads as zero after every instruction, whatever it does.
pub proof fn law_exec_keeps_zero(pc: u32, ins: u32, op: Opcode, c: Cpu, b: BusModel)
    requires
        c.gpr[0] == 0,
    ensures
        exec_spec(pc, ins, op, c, b).1.gpr[0] == 0,
{
}

/// What a load puts in its register, as a number: LW the little-endian word
/// of its four bytes; LHU and LBU the half word or byte as it is; LH and LB
/// the signed half word or byte (so a set top bit gives a negative value),
/// modulo 2^32.
pub proof fn law_load_values(bytes: Seq<u8>)
    requires
        bytes.len() >= 4,
    ensures
        ({
            let (b0, b1, b2, b3) = (bytes[0] as int, bytes[1] as int, bytes[2] as int, bytes[3] as int);
            let h = b0 + 256 * b1;
            let m = 0x1_0000_0000int;
            &&& load_value(Opcode::Lw, bytes) as int == b0 + 0x100 * b1 + 0x1_0000 * b2 + 0x100_0000 * b3
            &&& load_value(Opcode::Lhu, bytes) as int == h
            &&& load_value(Opcode::Lbu, bytes) as int == b0
            &&& load_value(Opcode::Lh, bytes) as int == (if h >= 0x8000 { h - 0x1_0000 } else { h }) % m
            &&& load_value(Opcode::Lb, bytes) as int == (if b0 >= 0x80 { b0 - 0x100 } else { b0 }) % m
        }),
{
    let (x0, x1, x2, x3) = (bytes[0], bytes[1], bytes[2], bytes[3]);
    assert(((x0 as u32) | ((x1 as u32) << 8u32) | ((x2 as u32) << 16u32) | ((x3 as u32) << 24u32)) as int
        == x0 as int + 0x100 * (x1 as int) + 0x1_0000 * (x2 as int) + 0x100_0000 * (x3 as int)) by (bit_vector);
    assert(((x0 as u32) | ((x1 as u32) << 8u32)) as int == x0 as int + 256 * (x1 as int)) by (bit_vector);
    assert(x1 >= 0x80 ==> (((x0 as u32) | ((x1 as u32) << 8u32)) | 0xFFFF_0000u32) as int == x0 as int + 256
        * (x1 as int) - 0x1_0000 + 0x1_0000_0000) by (bit_vector);
    assert(x0 >= 0x80 ==> ((x0 as u32) | 0xFFFF_FF00u32) as int == x0 as int - 0x100 + 0x1_0000_0000)
        by (bit_vector);
}

/// Multiply and divide in the interpreter: MULTU leaves the 64-bit product
/// in HI:LO, MULT the signed one (HI read as signed); DIVU leaves the
/// quotient in LO and the remainder in HI, DIV the quotient rounded toward
/// zero and the remainder with the sign of the dividend. A division by zero,
/// and the signed one of -2^31 by -1, leave the dividend in HI and the
/// divisor in LO. MTHI and MTLO copy `rs` into HI or LO.
pub proof fn law_mul_div_registers(pc: u32, ins: u32, c: Cpu, b: BusModel)
    ensures
        ({
            let s = c.gpr[field_rs(ins) as int];
            let t = c.gpr[field_rt(ins) as int];
            let w = 0x1_0000_0000int;
            let after = |op: Opcode| exec_spec(pc, ins, op, c, b);
            &&& after(Opcode::Multu).0 is Ok && after(Opcode::Multu).1.hi * w + after(Opcode::Multu).1.lo == s * t
            &&& after(Opcode::Mult).0 is Ok && signed(after(Opcode::Mult).1.hi) * w + after(Opcode::Mult).1.lo
                == signed(s) * signed(t)
            &&& after(Opcode::Divu).0 is Ok && ({
                let (hi, lo) = (after(Opcode::Divu).1.hi, after(Opcode::Divu).1.lo);
                if t == 0 {
                    hi == s && lo == t
                } else {
                    lo * t + hi == s && hi < t
                }
            })
            &&& after(Opcode::Div).0 is Ok && ({
                let (hi, lo) = (after(Opcode::Div).1.hi, after(Opcode::Div).1.lo);
                let (x, d) = (signed(s), signed(t));
                if t == 0 || (x == -0x8000_0000 && d == -1) {
                    hi == s && lo == t
                } else {
                    let (q, r) = (signed(lo), signed(hi));
                    &&& q * d + r == x
                    &&& (if r >= 0 { r } else { -r }) < (if d >= 0 { d } else { -d })
                    &&& (r == 0 || (r < 0) == (x < 0))
                }
            })
            &&& after(Opcode::Mthi).0 is Ok && after(Opcode::Mthi).1.hi == s
            &&& after(Opcode::Mtlo).0 is Ok && after(Opcode::Mtlo).1.lo == s
        }),
{
    crate::cpu::ins::law_mul_div(ins, regs_of(c));
    let s = c.gpr[field_rs(ins) as int];
    let t = c.gpr[field_rt(ins) as int];
    assert(signed(t) == -1 <==> t == 0xFFFF_FFFF);
    assert(signed(s) == -0x8000_0000 <==> s == 0x8000_0000);
}

/// Jumps in the interpreter always set the pending jump. J and JAL go to the
/// 26-bit target times four, within the 256 MiB segment of their delay slot
/// (`pc + 4`); JR goes to the address in `rs`. JAL writes the return address
/// (`pc + 8`) to `$ra`, JALR to `rd`, and JALR reads `rs` after that write.
/// The link is kept unless the delayed load before it writes the same
/// register.
pub proof fn law_jumps_interpreter(pc: u32, ins: u32, c: Cpu, b: BusModel)
    requires
        c.wf(),
    ensures
        ({
            let w = 0x1_0000_0000int;
            let s = c.gpr[field_rs(ins) as int];
            let d = (pc + 4) % w;
            let far = (d / 0x1000_0000) * 0x1000_0000 + (ins % 0x400_0000) * 4;
            let ret = (pc + 8) % w;
            let rd = field_rd(ins) as int;
            let after = |op: Opcode| exec_spec(pc, ins, op, c, b);
            &&& after(Opcode::J).0 is Ok && after(Opcode::J).1.pending_jump.happen
                && after(Opcode::J).1.pending_jump.target == far
            &&& after(Opcode::Jal).0 is Ok && after(Opcode::Jal).1.pending_jump.happen
                && after(Opcode::Jal).1.pending_jump.target == far
                && (c.pending_load.dest != 31 ==> after(Opcode::Jal).1.gpr[31] == ret)
            &&& after(Opcode::Jr).0 is Ok && after(Opcode::Jr).1.pending_jump.happen
                && after(Opcode::Jr).1.pending_jump.target == s
            &&& after(Opcode::Jalr).0 is Ok && after(Opcode::Jalr).1.pending_jump.happen
                && after(Opcode::Jalr).1.pending_jump.target == (if field_rs(ins) == field_rd(ins) { ret } else { s as int })
                && (rd != 0 && c.pending_load.dest != rd ==> after(Opcode::Jalr).1.gpr[rd] == ret)
        }),
{
    crate::bits::lemma_fields(ins);
    lemma_wrapping(pc, 4);
    lemma_wrapping(pc, 8);
    let p4 = pc.wrapping_add(4);
    assert(((p4 & 0xF000_0000u32) | ((ins & 0x03FF_FFFFu32) << 2u32)) as int == (p4 as int / 0x1000_0000)
        * 0x1000_0000 + (ins as int % 0x400_0000) * 4) by (bit_vector);
    assert(field_target(ins) == ins & 0x03FF_FFFFu32);
    let ld = c.pending_load;
    let c0 = Cpu { pending_load: PendingLoad { dest: 0, value: 0 }, ..c };
    let rd = field_rd(ins) as int;
    let rs = field_rs(ins) as int;
    // JAL
    let j1 = with_gpr(c0, DEFAULT_LINK_REG as int, pc.wrapping_add(8));
    assert(j1.gpr@ == c0.gpr@.update(31, pc.wrapping_add(8)));
    let j2 = Cpu { pending_jump: PendingJump { happen: true, target: (pc.wrapping_add(4) & 0xF000_0000u32) | (field_target(ins) << 2u32) }, ..j1 };
    assert(op_effect(pc, ins, Opcode::Jal, c0, b).1 == j2);
    assert(exec_spec(pc, ins, Opcode::Jal, c, b).1 == commit_load(j2, ld));
    let j3 = with_gpr(j2, ld.dest as int, ld.value);
    assert(j3.gpr@ == j2.gpr@.update(ld.dest as int, ld.value));
    assert(with_gpr(j3, 0, 0).gpr@ == j3.gpr@.update(0, 0));
    // JALR
    let k1 = with_gpr(c0, rd, pc.wrapping_add(8));
    assert(k1.gpr@ == c0.gpr@.update(rd, pc.wrapping_add(8)));
    let k2 = Cpu { pending_jump: PendingJump { happen: true, target: k1.gpr[rs] }, ..k1 };
    assert(op_effect(pc, ins, Opcode::Jalr, c0, b).1 == k2);
    assert(exec_spec(pc, ins, Opcode::Jalr, c, b).1 == commit_load(k2, ld));
    let k3 = with_gpr(k2, ld.dest as int, ld.value);
    assert(k3.gpr@ == k2.gpr@.update(ld.dest as int, ld.value));
    assert(with_gpr(k3, 0, 0).gpr@ == k3.gpr@.update(0, 0));
}

/// The bytes a store writes, lowest address first: SW the four bytes of
/// `rt`, least significant first; SH its low two; SB its low one.
pub proof fn law_store_bytes(t: u32)
    ensures
        store_bytes(Opcode::Sw, t) == seq![(t % 0x100) as u8, ((t / 0x100) % 0x100) as u8, ((t / 0x1_0000) % 0x100) as u8, (t / 0x100_0000) as u8],
        store_bytes(Opcode::Sh, t) == seq![(t % 0x100) as u8, ((t / 0x100) % 0x100) as u8],
        store_bytes(Opcode::Sb, t) == seq![(t % 0x100) as u8],
{
    assert(t as u8 == (t % 0x100) as u8 && (t >> 8u32) as u8 == ((t / 0x100) % 0x100) as u8
        && (t >> 16u32) as u8 == ((t / 0x1_0000) % 0x100) as u8 && (t >> 24u32) as u8 == (t / 0x100_0000) as u8)
        by (bit_vector);
    assert(store_bytes(Opcode::Sw, t) =~= seq![(t % 0x100) as u8, ((t / 0x100) % 0x100) as u8, ((t / 0x1_0000) % 0x100) as u8, (t / 0x100_0000) as u8]);
    assert(store_bytes(Opcode::Sh, t) =~= seq![(t % 0x100) as u8, ((t / 0x100) % 0x100) as u8]);
    assert(store_bytes(Opcode::Sb, t) =~= seq![(t % 0x100) as u8]);
}

/// The conditional branches of the interpreter: they succeed and set the
/// pending jump, taken exactly when the condition holds on register `rs`
/// (with `rt` for BEQ and BNE) as the machine reads it: BEQ on equal, BNE on
/// different, BLEZ on a signed value at most 0 (so on 0), BGTZ above 0, BLTZ
/// and BLTZAL below 0, BGEZ and BGEZAL at least 0. The "and link" forms write
/// the return address (the branch plus 8) to `$ra` first, and test the
/// registers after that write. The target is the delay slot plus four times
/// the signed offset.
pub proof fn law_branches(pc: u32, ins: u32, c: Cpu, b: BusModel)
    requires
        pc <= u32::MAX - 8,
    ensures
        ({
            let rs = field_rs(ins) as int;
            let s = c.gpr[rs];
            let t = c.gpr[field_rt(ins) as int];
            let sl = if rs == 31 { (pc + 8) as u32 } else { s };
            let goes = |op: Opcode, cond: bool| {
                let (r, c1, _) = exec_spec(pc, ins, op, c, b);
                &&& r is Ok
                &&& c1.pending_jump.happen == cond
                &&& c1.pending_jump.target as int == (pc + 4 + 4 * simm(ins)) % 0x1_0000_0000int
            };
            &&& goes(Opcode::Beq, s == t)
            &&& goes(Opcode::Bne, s != t)
            &&& goes(Opcode::Blez, signed(s) <= 0)
            &&& goes(Opcode::Bgtz, signed(s) > 0)
            &&& goes(Opcode::Bltz, signed(s) < 0)
            &&& goes(Opcode::Bgez, signed(s) >= 0)
            &&& goes(Opcode::Bltzal, signed(sl) < 0)
            &&& goes(Opcode::Bgezal, signed(sl) >= 0)
        }),
{
    crate::bits::lemma_fields(ins);
}

/// The load delay slot: the value a load reads is not in its register after
/// the load (the register holds what it held, or what the load before it
/// delivered), and is there after the next instruction, whatever that
/// instruction does.
pub proof fn law_load_delay(
    pc1: u32,
    ins1: u32,
    op1: Opcode,
    pc2: u32,
    ins2: u32,
    op2: Opcode,
    c: Cpu,
    b: BusModel,
)
    requires
        c.wf(),
        is_load(op1),
        field_rt(ins1) != 0,
        exec_spec(pc1, ins1, op1, c, b).0 is Ok,
        exec_spec(pc2, ins2, op2, exec_spec(pc1, ins1, op1, c, b).1, exec_spec(pc1, ins1, op1, c, b).2).0 is Ok,
    ensures
        ({
            let (_, c1, b1) = exec_spec(pc1, ins1, op1, c, b);
            let (_, c2, _) = exec_spec(pc2, ins2, op2, c1, b1);
            let rt = field_rt(ins1) as int;
            let loaded = load_value(
                op1,
                load_spec(b, effective_address(ins1, c), access_size(op1)).0->Ok_0,
            );
            &&& c1.gpr[rt] == (if c.pending_load.dest == rt {
                c.pending_load.value
            } else {
                c.gpr[rt]
            })
            &&& c1.pending_load == PendingLoad { dest: rt as usize, value: loaded }
            &&& c2.gpr[rt] == loaded
        }),
{
    let (_, c1, b1) = exec_spec(pc1, ins1, op1, c, b);
    crate::bits::lemma_fields(ins1);
    lemma_exec_load(pc1, ins1, op1, c, b);
    lemma_exec_commits(pc2, ins2, op2, c1, b1);
}

/// A load that succeeds leaves its value in the load delay slot, and takes
/// the delayed load before it.
proof fn lemma_exec_load(pc: u32, ins: u32, op: Opcode, c: Cpu, b: BusModel)
    requires
        c.wf(),
        is_load(op),
        exec_spec(pc, ins, op, c, b).0 is Ok,
    ensures
        ({
            let c1 = exec_spec(pc, ins, op, c, b).1;
            let rt = field_rt(ins) as int;
            &&& c1.pending_load == PendingLoad {
                dest: field_rt(ins),
                value: load_value(op, load_spec(b, effective_address(ins, c), access_size(op)).0->Ok_0),
            }
            &&& rt != 0 ==> c1.gpr[rt] == (if c.pending_load.dest == rt {
                c.pending_load.value
            } else {
                c.gpr[rt]
            })
        }),
{
    let ld = c.pending_load;
    let c0 = Cpu { pending_load: PendingLoad { dest: 0, value: 0 }, ..c };
    assert(!op.spec_is_alu());
    assert(effective_address(ins, c0) == effective_address(ins, c));
    let (r, b1) = load_spec(b, effective_address(ins, c), access_size(op));
    let c1 = Cpu {
        pending_load: PendingLoad { dest: field_rt(ins), value: load_value(op, r->Ok_0) },
        ..c0
    };
    assert(op_effect(pc, ins, op, c0, b) == (Ok::<(), Exception>(()), c1, b1));
    assert(exec_spec(pc, ins, op, c, b).1 == commit_load(c1, ld));
    crate::bits::lemma_fields(ins);
    let rt = field_rt(ins) as int;
    let c2 = with_gpr(c1, ld.dest as int, ld.value);
    assert(c2.gpr@ == c.gpr@.update(ld.dest as int, ld.value));
    assert(with_gpr(c2, 0, 0).gpr@ == c2.gpr@.update(0, 0));
    assert(c2.gpr[rt] == (if ld.dest == rt { ld.value } else { c.gpr[rt] }));
    assert(rt != 0 ==> with_gpr(c2, 0, 0).gpr[rt] == c2.gpr[rt]);
}

/// An instruction that succeeds delivers the delayed load before it.
proof fn lemma_exec_commits(pc: u32, ins: u32, op: Opcode, c: Cpu, b: BusModel)
    requires
        exec_spec(pc, ins, op, c, b).0 is Ok,
        0 < c.pending_load.dest < 32,
    ensures
        exec_spec(pc, ins, op, c, b).1.gpr[c.pending_load.dest as int] == c.pending_load.value,
{
    let ld = c.pending_load;
    let c0 = Cpu { pending_load: PendingLoad { dest: 0, value: 0 }, ..c };
    let c1 = op_effect(pc, ins, op, c0, b).1;
    assert(exec_spec(pc, ins, op, c, b).1 == commit_load(c1, ld));
    let c2 = with_gpr(c1, ld.dest as int, ld.value);
    assert(c2.gpr@ == c1.gpr@.update(ld.dest as int, ld.value));
    assert(with_gpr(c2, 0, 0).gpr@ == c2.gpr@.update(0, 0));
}

/// Register zero reads as zero after a block run by the interpreter.
pub proof fn law_run_keeps_zero(ops: Seq<Operation>, i: nat, c: Cpu, b: BusModel, res: ExecutionResult)
    requires
        c.gpr[0] == 0,
    ensures
        run_rec(ops, i, c, b, res).1.gpr[0] == 0,
    decreases ops.len() - i,
{
    if i < ops.len() {
        match ops[i as int] {
            Operation::Instruction { pc, in_delay_slot, ins, op } => {
                law_exec_keeps_zero(pc, ins, op, c, b);
                let res1 = ExecutionResult { last_pc: pc, last_in_delay_slot: in_delay_slot, ..res };
                let (r, c1, b1) = exec_spec(pc, ins, op, c, b);
                if r is Ok {
                    law_run_keeps_zero(ops, i + 1, c1, b1, res1);
                }
            },
            Operation::Break { .. } => {},
        }
    }
}


/// Register zero reads as zero from one step of the CPU to the next.
pub proof fn law_step_keeps_zero(cpu: Cpu, block_size: usize, b: BusModel)
    requires
        cpu.gpr[0] == 0,
    ensures
        super::step_model(cpu, Interpreter, block_size, b).1.gpr[0] == 0,
{
    let (ops, b1) = super::decoder::decode_rec(b, cpu.pc, false, block_size);
    law_run_keeps_zero(ops, 0, cpu, b1, initial_result(cpu));
}

} // verus!
