use vstd::prelude::*;

use crate::bits::{
    field_imm, field_rd, field_rs, field_rt, lemma_fields, lemma_masks, lemma_sext16, lemma_wrapping,
    signed16, wrap32,
};
use crate::cpu::ins::{
    evaluate_alu_spec, evaluate_load_store_spec, evaluate_other_spec, jump_target, taken, OpResult,
};
use crate::cpu::{Opcode, Registers};

verus! {

/// Result of the execute stage of the pipeline.
#[derive(Debug, Clone, Copy)]
pub enum ExecRes {
    /// Arithmetic ops like ADD, SUB, OR, etc. and shifts too.
    /// `res` is `None` if overflow happened.
    Alu { dest: usize, res: Option<u32> },
    /// Load from memory, store into register.
    Load { dest: usize, addr: u32, kind: LoadKind },
    /// Store in memory value from instruction.
    Store { addr: u32, kind: StoreKind },
    /// Conditions. `addr` is `None` when comparison failed.
    Branch { addr: Option<u32>, link: bool },
    /// Jump!
    Jump { addr: u32, link: bool, link_reg: usize },
    /// Multiply and divide (uses extra registers HI/LO).
    MulDiv { hi: u32, lo: u32 },
    /// Move from coprocessor 0.
    Mfc0 { dest: usize, from: usize },
    /// Move to coprocessor 0.
    Mtc0 { dest: usize, res: u32 },
    /// Break.
    Break,
    /// Syscall.
    Syscall,
    /// Return from exception.
    Rfe,
}

#[derive(Debug, Clone, Copy, PartialEq, Eq, Structural)]
pub enum LoadKind {
    /// Byte (signed).
    IByte,
    /// Halfword (signed).
    IHalf,
    /// Byte (unsigned).
    UByte,
    /// Halfword (unsigned).
    UHalf,
    /// Word.
    Word,
    /// Word left.
    WordLeft,
    /// Word right.
    WordRight,
}

#[derive(Debug, Clone, Copy, PartialEq, Eq, Structural)]
pub enum StoreKind {
    /// Byte.
    Byte(u8),
    /// Halfword.
    Half(u16),
    /// Word.
    Word(u32),
    /// Word left.
    WordLeft(u32),
    /// Word right.
    WordRight(u32),
}

pub open spec fn load_kind_of(k: crate::cpu::ins::LoadKind) -> LoadKind {
    match k {
        crate::cpu::ins::LoadKind::IByte => LoadKind::IByte,
        crate::cpu::ins::LoadKind::IHalf => LoadKind::IHalf,
        crate::cpu::ins::LoadKind::UByte => LoadKind::UByte,
        crate::cpu::ins::LoadKind::UHalf => LoadKind::UHalf,
        crate::cpu::ins::LoadKind::Word => LoadKind::Word,
        crate::cpu::ins::LoadKind::WordLeft => LoadKind::WordLeft,
        crate::cpu::ins::LoadKind::WordRight => LoadKind::WordRight,
    }
}

pub open spec fn store_kind_of(k: crate::cpu::ins::StoreKind) -> StoreKind {
    match k {
        crate::cpu::ins::StoreKind::Byte(v) => StoreKind::Byte(v),
        crate::cpu::ins::StoreKind::Half(v) => StoreKind::Half(v),
        crate::cpu::ins::StoreKind::Word(v) => StoreKind::Word(v),
        crate::cpu::ins::StoreKind::WordLeft(v) => StoreKind::WordLeft(v),
        crate::cpu::ins::StoreKind::WordRight(v) => StoreKind::WordRight(v),
    }
}

/// The execute-stage form of an evaluated arithmetic, load or store operation.
pub open spec fn exec_res_of(r: OpResult) -> ExecRes {
    match r {
        OpResult::Alu { dest, res } => ExecRes::Alu { dest, res },
        OpResult::Load { dest, addr, kind } => ExecRes::Load { dest, addr, kind: load_kind_of(kind) },
        OpResult::Store { addr, kind } => ExecRes::Store { addr, kind: store_kind_of(kind) },
        _ => ExecRes::Break,
    }
}

/// Target of a branch in the execute stage: the offset is shifted within 16 bits
/// (its two top bits are lost) before it is sign-extended.
pub open spec fn stage_branch_target(pc: u32, ins: u32) -> u32 {
    wrap32(pc - 4 + signed16(((field_imm(ins) << 2u32) & 0xFFFFu32) as u16))
}

/// What the execute stage computes for a conditional branch.
pub open spec fn branch_res(ins: u32, op: Opcode, regs: Registers) -> ExecRes {
    let s = regs.general[field_rs(ins) as int];
    let t = regs.general[field_rt(ins) as int];
    let br = stage_branch_target(regs.pc, ins);
    match op {
            Opcode::Beq => ExecRes::Branch { addr: taken(s == t, br), link: false },
            Opcode::Bne => ExecRes::Branch { addr: taken(s != t, br), link: false },
            Opcode::Blez => ExecRes::Branch { addr: taken(crate::bits::signed(s) <= 0, br), link: false },
            Opcode::Bgtz => ExecRes::Branch { addr: taken(crate::bits::signed(s) > 0, br), link: false },
            Opcode::Bltz => ExecRes::Branch { addr: taken(crate::bits::signed(s) < 0, br), link: false },
            Opcode::Bgez => ExecRes::Branch { addr: taken(crate::bits::signed(s) >= 0, br), link: false },
            Opcode::Bltzal => ExecRes::Branch { addr: taken(crate::bits::signed(s) < 0, br), link: true },
            Opcode::Bgezal => ExecRes::Branch { addr: taken(crate::bits::signed(s) >= 0, br), link: true },
            _ => ExecRes::Break,
    }
}

/// What the execute stage computes for instruction `op` (encoded in `ins`)
/// from the registers `regs`.
///
/// Arithmetic, loads, stores and the moves from HI/LO are evaluated as
/// [`crate::cpu::ins::evaluate`] does. Jumps too. Branches differ in their
/// target, which [`stage_branch_target`] gives. A division by zero, and the
/// overflowing signed one, leave the dividend in HI and the divisor in LO.
pub open spec fn execute_spec(ins: u32, op: Opcode, regs: Registers) -> ExecRes {
    let s = regs.general[field_rs(ins) as int];
    let t = regs.general[field_rt(ins) as int];
    let br = stage_branch_target(regs.pc, ins);
    if op.spec_is_alu() {
        exec_res_of(evaluate_alu_spec(op, ins, regs))
    } else if op.spec_is_load_store() {
        exec_res_of(evaluate_load_store_spec(op, ins, regs))
    } else {
        match op {
            Opcode::Beq | Opcode::Bne | Opcode::Blez | Opcode::Bgtz | Opcode::Bltz | Opcode::Bgez
            | Opcode::Bltzal | Opcode::Bgezal => branch_res(ins, op, regs),
            Opcode::J => ExecRes::Jump { addr: jump_target(regs.pc, ins), link: false, link_reg: 31 },
            Opcode::Jal => ExecRes::Jump { addr: jump_target(regs.pc, ins), link: true, link_reg: 31 },
            Opcode::Jr => ExecRes::Jump { addr: s, link: false, link_reg: 31 },
            Opcode::Jalr => ExecRes::Jump { addr: s, link: true, link_reg: field_rd(ins) },
            Opcode::Mult | Opcode::Multu | Opcode::Div | Opcode::Divu => {
                match evaluate_other_spec(op, ins, regs) {
                    Some(OpResult::MulDiv { res: Some((hi, lo)) }) => ExecRes::MulDiv { hi, lo },
                    _ => ExecRes::MulDiv { hi: s, lo: t },
                }
            },
            Opcode::Mtlo => ExecRes::MulDiv { hi: regs.hi, lo: s },
            Opcode::Mthi => ExecRes::MulDiv { hi: s, lo: regs.lo },
            Opcode::Mfc0 => ExecRes::Mfc0 { dest: field_rt(ins), from: field_rd(ins) },
            Opcode::Mtc0 => ExecRes::Mtc0 { dest: field_rd(ins), res: t },
            Opcode::Break => ExecRes::Break,
            Opcode::Syscall => ExecRes::Syscall,
            _ => ExecRes::Rfe,
        }
    }
}

fn load_kind(k: crate::cpu::ins::LoadKind) -> (r: LoadKind)
    ensures
        r == load_kind_of(k),
{
    match k {
        crate::cpu::ins::LoadKind::IByte => LoadKind::IByte,
        crate::cpu::ins::LoadKind::IHalf => LoadKind::IHalf,
        crate::cpu::ins::LoadKind::UByte => LoadKind::UByte,
        crate::cpu::ins::LoadKind::UHalf => LoadKind::UHalf,
        crate::cpu::ins::LoadKind::Word => LoadKind::Word,
        crate::cpu::ins::LoadKind::WordLeft => LoadKind::WordLeft,
        crate::cpu::ins::LoadKind::WordRight => LoadKind::WordRight,
    }
}

fn store_kind(k: crate::cpu::ins::StoreKind) -> (r: StoreKind)
    ensures
        r == store_kind_of(k),
{
    match k {
        crate::cpu::ins::StoreKind::Byte(v) => StoreKind::Byte(v),
        crate::cpu::ins::StoreKind::Half(v) => StoreKind::Half(v),
        crate::cpu::ins::StoreKind::Word(v) => StoreKind::Word(v),
        crate::cpu::ins::StoreKind::WordLeft(v) => StoreKind::WordLeft(v),
        crate::cpu::ins::StoreKind::WordRight(v) => StoreKind::WordRight(v),
    }
}

fn exec_res(r: OpResult) -> (e: ExecRes)
    ensures
        e == exec_res_of(r),
{
    match r {
        OpResult::Alu { dest, res } => ExecRes::Alu { dest, res },
        OpResult::Load { dest, addr, kind } => ExecRes::Load { dest, addr, kind: load_kind(kind) },
        OpResult::Store { addr, kind } => ExecRes::Store { addr, kind: store_kind(kind) },
        _ => ExecRes::Break,
    }
}

/// Execute stage: compute the result of `op` (encoded in `ins`) from the
/// registers read at decode. Coprocessor control moves (CFC0/CTC0) are not
/// supported.
pub fn execute(ins: u32, op: Opcode, regs: &Registers) -> (r: ExecRes)
    requires
        op != Opcode::Cfc0,
        op != Opcode::Ctc0,
        op.targets_from_pc() ==> regs.pc >= 4,
    ensures
        r == execute_spec(ins, op, *regs),
{
    if op.is_alu() {
        return exec_res(OpResult::evaluate_alu(op, ins, regs));
    }
    if op.is_load_store() {
        return exec_res(OpResult::evaluate_load_store(op, ins, regs));
    }
    if op.is_branch() {
        return execute_branch(ins, op, regs);
    }
    execute_other(ins, op, regs)
}

/// Execute stage of a conditional branch.
fn execute_branch(ins: u32, op: Opcode, regs: &Registers) -> (r: ExecRes)
    requires
        op.spec_is_branch(),
        regs.pc >= 4,
    ensures
        r == branch_res(ins, op, *regs),
{
    proof {
        lemma_fields(ins);
    }
    let rs: usize = ((ins >> 21u32) & 0x1Fu32) as usize;
    let rt: usize = ((ins >> 16u32) & 0x1Fu32) as usize;
    let rd: usize = ((ins >> 11u32) & 0x1Fu32) as usize;
    let imm: u16 = (ins & 0xFFFFu32) as u16;
    let imm_sext: i16 = imm as i16;
    let target: u32 = ins & 0x03FF_FFFFu32;
    let s: u32 = regs.general[rs];
    let t: u32 = regs.general[rt];
    match op {
        Opcode::Beq | Opcode::Bne | Opcode::Blez | Opcode::Bgtz | Opcode::Bltz | Opcode::Bgez
        | Opcode::Bltzal | Opcode::Bgezal => {
            let off: u16 = ((ins & 0xFFFFu32) << 2u32) as u16;
            let dest: u32 = (regs.pc - 4).wrapping_add((off as i16) as u32);
            proof {
                lemma_sext16(off);
                lemma_masks(ins << 2u32);
                assert(off == ((field_imm(ins) << 2u32) & 0xFFFFu32) as u16) by (bit_vector)
                    requires off == ((ins & 0xFFFFu32) << 2u32) as u16;
                lemma_wrapping((regs.pc - 4) as u32, (off as i16) as u32);
                crate::bits::lemma_signed(s);
            }
            let cond = match op {
                Opcode::Beq => s == t,
                Opcode::Bne => s != t,
                Opcode::Blez => (s as i32) <= 0,
                Opcode::Bgtz => (s as i32) > 0,
                Opcode::Bltz | Opcode::Bltzal => (s as i32) < 0,
                _ => (s as i32) >= 0,
            };
            let link = match op {
                Opcode::Bltzal | Opcode::Bgezal => true,
                _ => false,
            };
            ExecRes::Branch { addr: if cond { Some(dest) } else { None }, link }
        },
        _ => ExecRes::Break,
    }
}

/// Execute stage of jumps, multiply/divide, moves and traps.
fn execute_other(ins: u32, op: Opcode, regs: &Registers) -> (r: ExecRes)
    requires
        !op.spec_is_alu(),
        !op.spec_is_load_store(),
        !op.spec_is_branch(),
        op != Opcode::Cfc0,
        op != Opcode::Ctc0,
        op.targets_from_pc() ==> regs.pc >= 4,
    ensures
        r == execute_spec(ins, op, *regs),
{
    proof {
        lemma_fields(ins);
    }
    let rs: usize = ((ins >> 21u32) & 0x1Fu32) as usize;
    let rt: usize = ((ins >> 16u32) & 0x1Fu32) as usize;
    let rd: usize = ((ins >> 11u32) & 0x1Fu32) as usize;
    let imm: u16 = (ins & 0xFFFFu32) as u16;
    let imm_sext: i16 = imm as i16;
    let target: u32 = ins & 0x03FF_FFFFu32;
    let s: u32 = regs.general[rs];
    let t: u32 = regs.general[rt];
    match op {
        Opcode::J => ExecRes::Jump {
            addr: ((regs.pc - 4) & 0xF000_0000u32) | (target << 2u32),
            link: false,
            link_reg: 31,
        },
        Opcode::Jal => ExecRes::Jump {
            addr: ((regs.pc - 4) & 0xF000_0000u32) | (target << 2u32),
            link: true,
            link_reg: 31,
        },
        Opcode::Jr => ExecRes::Jump { addr: s, link: false, link_reg: 31 },
        Opcode::Jalr => ExecRes::Jump { addr: s, link: true, link_reg: rd },
        Opcode::Mult => {
            let (hi, lo) = crate::cpu::ins::mult_signed(s, t);
            ExecRes::MulDiv { hi, lo }
        },
        Opcode::Multu => {
            let (hi, lo) = crate::cpu::ins::mult_unsigned(s, t);
            ExecRes::MulDiv { hi, lo }
        },
        Opcode::Div => {
            // Overflow or division by zero
            match crate::cpu::ins::div_signed(s, t) {
                Some((hi, lo)) => ExecRes::MulDiv { hi, lo },
                None => ExecRes::MulDiv { hi: s, lo: t },
            }
        },
        Opcode::Divu => {
            if t == 0 {
                ExecRes::MulDiv { hi: s, lo: t }
            } else {
                ExecRes::MulDiv { hi: s % t, lo: s / t }
            }
        },
        Opcode::Mtlo => ExecRes::MulDiv { hi: regs.hi, lo: s },
        Opcode::Mthi => ExecRes::MulDiv { hi: s, lo: regs.lo },
        Opcode::Mfc0 => ExecRes::Mfc0 { dest: rt, from: rd },
        Opcode::Mtc0 => ExecRes::Mtc0 { dest: rd, res: t },
        Opcode::Break => ExecRes::Break,
        Opcode::Syscall => ExecRes::Syscall,
        _ => ExecRes::Rfe,
    }
}


/// The registers that an execute result names are registers (below 32).
pub proof fn lemma_execute_wf(ins: u32, op: Opcode, regs: Registers)
    ensures
        crate::cpu::pipeline::exec_wf(execute_spec(ins, op, regs)),
{
    lemma_fields(ins);
}


/// The execute stage decides a conditional branch on register `rs` (with
/// `rt` for BEQ and BNE) as the machine reads it: BEQ on equal, BNE on
/// different, BLEZ on a signed value at most 0, BGTZ above 0 (so not on 0),
/// BLTZ and BLTZAL below 0, BGEZ and BGEZAL at least 0. A taken branch gives
/// its target address, one not taken gives none; the two "and link" forms
/// link.
pub proof fn law_stage_branches(ins: u32, regs: Registers)
    ensures
        ({
            let s = regs.general[field_rs(ins) as int];
            let t = regs.general[field_rt(ins) as int];
            let br = stage_branch_target(regs.pc, ins);
            let decides = |op: Opcode, cond: bool, l: bool|
                execute_spec(ins, op, regs) == ExecRes::Branch {
                    addr: if cond { Some(br) } else { None },
                    link: l,
                };
            &&& decides(Opcode::Beq, s == t, false)
            &&& decides(Opcode::Bne, s != t, false)
            &&& decides(Opcode::Blez, crate::bits::signed(s) <= 0, false)
            &&& decides(Opcode::Bgtz, crate::bits::signed(s) > 0, false)
            &&& decides(Opcode::Bltz, crate::bits::signed(s) < 0, false)
            &&& decides(Opcode::Bgez, crate::bits::signed(s) >= 0, false)
            &&& decides(Opcode::Bltzal, crate::bits::signed(s) < 0, true)
            &&& decides(Opcode::Bgezal, crate::bits::signed(s) >= 0, true)
        }),
{
}

} // verus!
