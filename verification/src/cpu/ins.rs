use vstd::prelude::*;

use crate::bits::{
    bool_word, checked_sum, div_trunc, field_funct, field_imm, field_rd, field_rs, field_rt,
    field_shamt, field_target, hi_lo, lemma_div_trunc_fits, lemma_fields, lemma_masks, lemma_split64, lemma_split64_signed, lemma_wrapping, lemma_wrapping_add, lemma_sext16, lemma_signed, lemma_wrap,
    rem_trunc, sext_imm, signed, simm, wrap32, bit, lemma_bit_logic, lemma_bit_zimm, lemma_bit_shifts,
    lemma_signed_wrap,
};

use super::Registers;

verus! {

/// MIPS R3000A instruction, identified by its opcode together with the
/// function, REGIMM or coprocessor sub-field that selects it.
#[derive(Debug, Clone, Copy, PartialEq, Eq, Structural)]
pub enum Opcode {
    /// Shift left logical (shamt).
    Sll,
    /// Shift right logical (shamt).
    Srl,
    /// Shift right arithmetic (shamt).
    Sra,
    /// Shift left logical (var).
    Sllv,
    /// Shift right logical (var).
    Srlv,
    /// Shift right arithmetic (var).
    Srav,
    /// Jump register.
    Jr,
    /// Jump and link register.
    Jalr,
    /// Syscall trap.
    Syscall,
    /// Breakpoint trap.
    Break,
    /// Move from HI.
    Mfhi,
    /// Move to HI.
    Mthi,
    /// Move from LO.
    Mflo,
    /// Move to LO.
    Mtlo,
    /// Multiply (signed) -> HI/LO.
    Mult,
    /// Multiply (unsigned) -> HI/LO.
    Multu,
    /// Divide (signed) -> HI/LO.
    Div,
    /// Divide (unsigned) -> HI/LO.
    Divu,
    /// Add (signed, overflow).
    Add,
    /// Add unsigned (no overflow).
    Addu,
    /// Subtract (signed, overflow).
    Sub,
    /// Subtract unsigned (no overflow).
    Subu,
    /// Bitwise and.
    And,
    /// Bitwise or.
    Or,
    /// Bitwise xor.
    Xor,
    /// Bitwise nor.
    Nor,
    /// Set on less than (signed).
    Slt,
    /// Set on less than (unsigned).
    Sltu,
    /// Branch on < 0.
    Bltz,
    /// Branch on >= 0.
    Bgez,
    /// Branch on < 0 and link.
    Bltzal,
    /// Branch on >= 0 and link.
    Bgezal,
    /// Move from coprocessor 0.
    Mfc0,
    /// Move to coprocessor 0.
    Mtc0,
    /// Move from coprocessor 0 control.
    Cfc0,
    /// Move to coprocessor 0 control.
    Ctc0,
    /// Return from exception.
    Rfe,
    /// Jump.
    J,
    /// Jump and link.
    Jal,
    /// Branch on equal.
    Beq,
    /// Branch on not equal.
    Bne,
    /// Branch on <= 0.
    Blez,
    /// Branch on > 0.
    Bgtz,
    /// Add immediate (signed, overflow).
    Addi,
    /// Add immediate unsigned (no overflow).
    Addiu,
    /// Set on less than immediate (signed).
    Slti,
    /// Set on less than immediate (unsigned).
    Sltiu,
    /// Bitwise and immediate.
    Andi,
    /// Bitwise or immediate.
    Ori,
    /// Bitwise xor immediate.
    Xori,
    /// Load upper immediate.
    Lui,
    /// Load byte (signed).
    Lb,
    /// Load halfword (signed).
    Lh,
    /// Load word left.
    Lwl,
    /// Load word.
    Lw,
    /// Load byte (unsigned).
    Lbu,
    /// Load halfword (unsigned).
    Lhu,
    /// Load word right.
    Lwr,
    /// Store byte.
    Sb,
    /// Store halfword.
    Sh,
    /// Store word left.
    Swl,
    /// Store word.
    Sw,
    /// Store word right.
    Swr,
}

impl Opcode {
    /// The code of the instruction: the primary opcode in the low byte and the
    /// selecting sub-field in the high byte.
    pub open spec fn code(self) -> u16 {
        match self {
            Opcode::Sll => 0x0000,
            Opcode::Srl => 0x0200,
            Opcode::Sra => 0x0300,
            Opcode::Sllv => 0x0400,
            Opcode::Srlv => 0x0600,
            Opcode::Srav => 0x0700,
            Opcode::Jr => 0x0800,
            Opcode::Jalr => 0x0900,
            Opcode::Syscall => 0x0C00,
            Opcode::Break => 0x0D00,
            Opcode::Mfhi => 0x1000,
            Opcode::Mthi => 0x1100,
            Opcode::Mflo => 0x1200,
            Opcode::Mtlo => 0x1300,
            Opcode::Mult => 0x1800,
            Opcode::Multu => 0x1900,
            Opcode::Div => 0x1A00,
            Opcode::Divu => 0x1B00,
            Opcode::Add => 0x2000,
            Opcode::Addu => 0x2100,
            Opcode::Sub => 0x2200,
            Opcode::Subu => 0x2300,
            Opcode::And => 0x2400,
            Opcode::Or => 0x2500,
            Opcode::Xor => 0x2600,
            Opcode::Nor => 0x2700,
            Opcode::Slt => 0x2A00,
            Opcode::Sltu => 0x2B00,
            Opcode::Bltz => 0x0001,
            Opcode::Bgez => 0x0101,
            Opcode::Bltzal => 0x1001,
            Opcode::Bgezal => 0x1101,
            Opcode::Mfc0 => 0x0010,
            Opcode::Mtc0 => 0x0410,
            Opcode::Cfc0 => 0x0210,
            Opcode::Ctc0 => 0x0610,
            Opcode::Rfe => 0x1010,
            Opcode::J => 0x0002,
            Opcode::Jal => 0x0003,
            Opcode::Beq => 0x0004,
            Opcode::Bne => 0x0005,
            Opcode::Blez => 0x0006,
            Opcode::Bgtz => 0x0007,
            Opcode::Addi => 0x0008,
            Opcode::Addiu => 0x0009,
            Opcode::Slti => 0x000A,
            Opcode::Sltiu => 0x000B,
            Opcode::Andi => 0x000C,
            Opcode::Ori => 0x000D,
            Opcode::Xori => 0x000E,
            Opcode::Lui => 0x000F,
            Opcode::Lb => 0x0020,
            Opcode::Lh => 0x0021,
            Opcode::Lwl => 0x0022,
            Opcode::Lw => 0x0023,
            Opcode::Lbu => 0x0024,
            Opcode::Lhu => 0x0025,
            Opcode::Lwr => 0x0026,
            Opcode::Sb => 0x0028,
            Opcode::Sh => 0x0029,
            Opcode::Swl => 0x002A,
            Opcode::Sw => 0x002B,
            Opcode::Swr => 0x002E,
        }
    }

    /// The instruction with the given code, if any.
    pub fn from_repr(tag: u16) -> (r: Option<Opcode>)
        ensures
            match r {
                Some(op) => op.code() == tag,
                None => forall|op: Opcode| #[trigger] op.code() != tag,
            },
    {
        match tag {
            0x0000 => Some(Opcode::Sll),
            0x0200 => Some(Opcode::Srl),
            0x0300 => Some(Opcode::Sra),
            0x0400 => Some(Opcode::Sllv),
            0x0600 => Some(Opcode::Srlv),
            0x0700 => Some(Opcode::Srav),
            0x0800 => Some(Opcode::Jr),
            0x0900 => Some(Opcode::Jalr),
            0x0C00 => Some(Opcode::Syscall),
            0x0D00 => Some(Opcode::Break),
            0x1000 => Some(Opcode::Mfhi),
            0x1100 => Some(Opcode::Mthi),
            0x1200 => Some(Opcode::Mflo),
            0x1300 => Some(Opcode::Mtlo),
            0x1800 => Some(Opcode::Mult),
            0x1900 => Some(Opcode::Multu),
            0x1A00 => Some(Opcode::Div),
            0x1B00 => Some(Opcode::Divu),
            0x2000 => Some(Opcode::Add),
            0x2100 => Some(Opcode::Addu),
            0x2200 => Some(Opcode::Sub),
            0x2300 => Some(Opcode::Subu),
            0x2400 => Some(Opcode::And),
            0x2500 => Some(Opcode::Or),
            0x2600 => Some(Opcode::Xor),
            0x2700 => Some(Opcode::Nor),
            0x2A00 => Some(Opcode::Slt),
            0x2B00 => Some(Opcode::Sltu),
            0x0001 => Some(Opcode::Bltz),
            0x0101 => Some(Opcode::Bgez),
            0x1001 => Some(Opcode::Bltzal),
            0x1101 => Some(Opcode::Bgezal),
            0x0010 => Some(Opcode::Mfc0),
            0x0410 => Some(Opcode::Mtc0),
            0x0210 => Some(Opcode::Cfc0),
            0x0610 => Some(Opcode::Ctc0),
            0x1010 => Some(Opcode::Rfe),
            0x0002 => Some(Opcode::J),
            0x0003 => Some(Opcode::Jal),
            0x0004 => Some(Opcode::Beq),
            0x0005 => Some(Opcode::Bne),
            0x0006 => Some(Opcode::Blez),
            0x0007 => Some(Opcode::Bgtz),
            0x0008 => Some(Opcode::Addi),
            0x0009 => Some(Opcode::Addiu),
            0x000A => Some(Opcode::Slti),
            0x000B => Some(Opcode::Sltiu),
            0x000C => Some(Opcode::Andi),
            0x000D => Some(Opcode::Ori),
            0x000E => Some(Opcode::Xori),
            0x000F => Some(Opcode::Lui),
            0x0020 => Some(Opcode::Lb),
            0x0021 => Some(Opcode::Lh),
            0x0022 => Some(Opcode::Lwl),
            0x0023 => Some(Opcode::Lw),
            0x0024 => Some(Opcode::Lbu),
            0x0025 => Some(Opcode::Lhu),
            0x0026 => Some(Opcode::Lwr),
            0x0028 => Some(Opcode::Sb),
            0x0029 => Some(Opcode::Sh),
            0x002A => Some(Opcode::Swl),
            0x002B => Some(Opcode::Sw),
            0x002E => Some(Opcode::Swr),
            _ => None,
        }
    }
}
/// The code that selects the instruction of a word: the primary opcode, and for
/// SPECIAL (0x00), REGIMM (0x01) and COP0 (0x10) the funct, rt or rs field
/// above it.
pub open spec fn ins_code(ins: u32) -> u16 {
    let opcode = ins >> 26u32;
    if opcode == 0x00 {
        ((field_funct(ins) << 8u32) | opcode) as u16
    } else if opcode == 0x01 {
        (((field_rt(ins) as u32) << 8u32) | opcode) as u16
    } else if opcode == 0x10 {
        (((field_rs(ins) as u32) << 8u32) | opcode) as u16
    } else {
        opcode as u16
    }
}

/// The instruction that a word encodes, if it is a valid one.
pub open spec fn decode_spec(ins: u32) -> Option<Opcode> {
    if exists|op: Opcode| #[trigger] op.code() == ins_code(ins) {
        Some(choose|op: Opcode| #[trigger] op.code() == ins_code(ins))
    } else {
        None
    }
}

/// No two instructions share a code.
pub proof fn lemma_code_injective(a: Opcode, b: Opcode)
    requires
        a.code() == b.code(),
    ensures
        a == b,
{
}

impl Opcode {
    /// The code of the instruction that a word encodes.
    pub fn code_of(ins: u32) -> (r: u16)
        ensures
            r == ins_code(ins),
    {
        proof {
            lemma_fields(ins);
        }
        let opcode: u32 = ins >> 26u32;
        if opcode == 0x00 {
            ((((ins & 0x3Fu32) << 8u32) | opcode) as u16)
        } else if opcode == 0x01 {
            (((((ins >> 16u32) & 0x1Fu32) << 8u32) | opcode) as u16)
        } else if opcode == 0x10 {
            (((((ins >> 21u32) & 0x1Fu32) << 8u32) | opcode) as u16)
        } else {
            opcode as u16
        }
    }

    /// Decode an instruction word; `None` for a reserved instruction.
    pub fn decode(ins: u32) -> (r: Option<Opcode>)
        ensures
            r == decode_spec(ins),
            match r {
                Some(op) => op.code() == ins_code(ins),
                None => forall|op: Opcode| #[trigger] op.code() != ins_code(ins),
            },
    {
        let code: u16 = Opcode::code_of(ins);
        let r = Opcode::from_repr(code);
        proof {
            match r {
                Some(op) => {
                    assert(op.code() == ins_code(ins));
                    let c = choose|o: Opcode| #[trigger] o.code() == ins_code(ins);
                    lemma_code_injective(op, c);
                },
                None => {},
            }
        }
        r
    }

    pub open spec fn spec_has_branch_delay(self) -> bool {
        match self {
            Opcode::Jr | Opcode::Jalr | Opcode::Bltz | Opcode::Bgez | Opcode::Bltzal
            | Opcode::Bgezal | Opcode::J | Opcode::Jal | Opcode::Beq | Opcode::Bne
            | Opcode::Blez | Opcode::Bgtz => true,
            _ => false,
        }
    }

    /// Branches and jumps: the next instruction sits in their delay slot.
    #[verifier::when_used_as_spec(spec_has_branch_delay)]
    pub fn has_branch_delay(self) -> (r: bool)
        ensures
            r == self.spec_has_branch_delay(),
    {
        match self {
            Opcode::Jr | Opcode::Jalr | Opcode::Bltz | Opcode::Bgez | Opcode::Bltzal
            | Opcode::Bgezal | Opcode::J | Opcode::Jal | Opcode::Beq | Opcode::Bne
            | Opcode::Blez | Opcode::Bgtz => true,
            _ => false,
        }
    }
}


/// Operation decoded from a word and evaluated with the registers it reads.
#[derive(Debug, Clone, Copy)]
pub enum OpResult {
    Nop,
    /// Arithmetic ops like ADD, SUB, OR, etc. and shifts too.
    /// `res` is `None` when a trapping addition or subtraction overflows.
    Alu { dest: usize, res: Option<u32> },
    /// Load from memory, store into register.
    Load { dest: usize, addr: u32, kind: LoadKind },
    /// Store in memory value from instruction.
    Store { addr: u32, kind: StoreKind },
    /// Conditions. `addr` is `None` when the branch is not taken.
    Branch { addr: Option<u32>, link: bool },
    /// Jump!
    Jump { addr: u32, link: bool, link_reg: usize },
    /// Multiply and divide (HI, LO). `None` for a division by zero or an overflowing one.
    MulDiv { res: Option<(u32, u32)> },
    /// Break.
    Break,
    /// Syscall.
    Syscall,
    /// Return from exception.
    Rfe,
}

#[derive(Debug, Clone, Copy, PartialEq, Eq, Structural)]
pub enum LoadKind {
    /// Byte (signed).
    IByte,
    /// Halfword (signed).
    IHalf,
    /// Byte (unsigned).
    UByte,
    /// Halfword (unsigned).
    UHalf,
    /// Word.
    Word,
    /// Word left.
    WordLeft,
    /// Word right.
    WordRight,
}

#[derive(Debug, Clone, Copy, PartialEq, Eq, Structural)]
pub enum StoreKind {
    /// Byte.
    Byte(u8),
    /// Halfword.
    Half(u16),
    /// Word.
    Word(u32),
    /// Word left.
    WordLeft(u32),
    /// Word right.
    WordRight(u32),
}

impl Default for OpResult {
    fn default() -> (r: Self)
        ensures
            r is Nop,
    {
        OpResult::Nop
    }
}

impl Opcode {
    pub open spec fn spec_is_branch(self) -> bool {
        match self {
            Opcode::Beq | Opcode::Bne | Opcode::Blez | Opcode::Bgtz | Opcode::Bltz
            | Opcode::Bgez | Opcode::Bltzal | Opcode::Bgezal => true,
            _ => false,
        }
    }

    /// Conditional branches.
    #[verifier::when_used_as_spec(spec_is_branch)]
    pub fn is_branch(self) -> (r: bool)
        ensures
            r == self.spec_is_branch(),
    {
        match self {
            Opcode::Beq | Opcode::Bne | Opcode::Blez | Opcode::Bgtz | Opcode::Bltz
            | Opcode::Bgez | Opcode::Bltzal | Opcode::Bgezal => true,
            _ => false,
        }
    }

    /// Branches and jumps whose target is computed from the address of the instruction.
    pub open spec fn targets_from_pc(self) -> bool {
        match self {
            Opcode::Beq | Opcode::Bne | Opcode::Blez | Opcode::Bgtz | Opcode::Bltz
            | Opcode::Bgez | Opcode::Bltzal | Opcode::Bgezal | Opcode::J | Opcode::Jal => true,
            _ => false,
        }
    }
}


impl Opcode {
    pub open spec fn spec_is_alu(self) -> bool {
        match self {
            Opcode::Add | Opcode::Addu | Opcode::Sub | Opcode::Subu | Opcode::And | Opcode::Or | Opcode::Xor | Opcode::Nor | Opcode::Slt | Opcode::Sltu | Opcode::Sll | Opcode::Srl | Opcode::Sra | Opcode::Sllv | Opcode::Srlv | Opcode::Srav | Opcode::Addi | Opcode::Addiu | Opcode::Slti | Opcode::Sltiu | Opcode::Andi | Opcode::Ori | Opcode::Xori | Opcode::Lui | Opcode::Mfhi | Opcode::Mflo => true,
            _ => false,
        }
    }

    /// Instructions that compute a register value from registers and the immediate.
    #[verifier::when_used_as_spec(spec_is_alu)]
    pub fn is_alu(self) -> (r: bool)
        ensures
            r == self.spec_is_alu(),
    {
        match self {
            Opcode::Add | Opcode::Addu | Opcode::Sub | Opcode::Subu | Opcode::And | Opcode::Or | Opcode::Xor | Opcode::Nor | Opcode::Slt | Opcode::Sltu | Opcode::Sll | Opcode::Srl | Opcode::Sra | Opcode::Sllv | Opcode::Srlv | Opcode::Srav | Opcode::Addi | Opcode::Addiu | Opcode::Slti | Opcode::Sltiu | Opcode::Andi | Opcode::Ori | Opcode::Xori | Opcode::Lui | Opcode::Mfhi | Opcode::Mflo => true,
            _ => false,
        }
    }

    pub open spec fn spec_is_load_store(self) -> bool {
        match self {
            Opcode::Lw | Opcode::Lh | Opcode::Lhu | Opcode::Lb | Opcode::Lbu | Opcode::Lwl | Opcode::Lwr | Opcode::Sw | Opcode::Sh | Opcode::Sb | Opcode::Swl | Opcode::Swr => true,
            _ => false,
        }
    }

    /// Loads and stores.
    #[verifier::when_used_as_spec(spec_is_load_store)]
    pub fn is_load_store(self) -> (r: bool)
        ensures
            r == self.spec_is_load_store(),
    {
        match self {
            Opcode::Lw | Opcode::Lh | Opcode::Lhu | Opcode::Lb | Opcode::Lbu | Opcode::Lwl | Opcode::Lwr | Opcode::Sw | Opcode::Sh | Opcode::Sb | Opcode::Swl | Opcode::Swr => true,
            _ => false,
        }
    }
}

/// Address of a PC-relative branch: the delay slot plus four times the offset.
/// `pc` is the address after the delay slot.
pub open spec fn branch_target(pc: u32, ins: u32) -> u32 {
    wrap32(pc - 4 + 4 * simm(ins))
}

/// Address of a J or JAL: the 256 MiB segment of the delay slot and the target field.
pub open spec fn jump_target(pc: u32, ins: u32) -> u32 {
    ((pc - 4) as u32 & 0xF000_0000u32) | (field_target(ins) << 2u32)
}

pub open spec fn taken(c: bool, addr: u32) -> Option<u32> {
    if c {
        Some(addr)
    } else {
        None
    }
}

/// What an arithmetic, logic or shift instruction computes.
pub open spec fn evaluate_alu_spec(op: Opcode, ins: u32, regs: Registers) -> OpResult {
    let s = regs.general[field_rs(ins) as int];
    let t = regs.general[field_rt(ins) as int];
    let rd = field_rd(ins);
    let rt = field_rt(ins);
    let sh = field_shamt(ins);
    let zimm = field_imm(ins);
    let ea = wrap32(s + simm(ins));
    match op {
        Opcode::Add => OpResult::Alu { dest: rd, res: checked_sum(signed(s), signed(t)) },
        Opcode::Addu => OpResult::Alu { dest: rd, res: Some(wrap32(s + t)) },
        Opcode::Sub => OpResult::Alu { dest: rd, res: checked_sum(signed(s), -signed(t)) },
        Opcode::Subu => OpResult::Alu { dest: rd, res: Some(wrap32(s - t)) },
        Opcode::And => OpResult::Alu { dest: rd, res: Some(s & t) },
        Opcode::Or => OpResult::Alu { dest: rd, res: Some(s | t) },
        Opcode::Xor => OpResult::Alu { dest: rd, res: Some(s ^ t) },
        Opcode::Nor => OpResult::Alu { dest: rd, res: Some(!(s | t)) },
        Opcode::Slt => OpResult::Alu { dest: rd, res: Some(bool_word(signed(s) < signed(t))) },
        Opcode::Sltu => OpResult::Alu { dest: rd, res: Some(bool_word(s < t)) },
        Opcode::Sll => OpResult::Alu { dest: rd, res: Some(t << sh) },
        Opcode::Srl => OpResult::Alu { dest: rd, res: Some(t >> sh) },
        Opcode::Sra => OpResult::Alu { dest: rd, res: Some(((t as i32) >> sh) as u32) },
        Opcode::Sllv => OpResult::Alu { dest: rd, res: Some(t << (s & 0x1Fu32)) },
        Opcode::Srlv => OpResult::Alu { dest: rd, res: Some(t >> (s & 0x1Fu32)) },
        Opcode::Srav => OpResult::Alu { dest: rd, res: Some(((t as i32) >> (s & 0x1Fu32)) as u32) },
        Opcode::Addi => OpResult::Alu { dest: rt, res: checked_sum(signed(s), simm(ins)) },
        Opcode::Addiu => OpResult::Alu { dest: rt, res: Some(ea) },
        Opcode::Slti => OpResult::Alu { dest: rt, res: Some(bool_word(signed(s) < simm(ins))) },
        Opcode::Sltiu => OpResult::Alu { dest: rt, res: Some(bool_word(s < sext_imm(ins))) },
        Opcode::Andi => OpResult::Alu { dest: rt, res: Some(s & zimm) },
        Opcode::Ori => OpResult::Alu { dest: rt, res: Some(s | zimm) },
        Opcode::Xori => OpResult::Alu { dest: rt, res: Some(s ^ zimm) },
        Opcode::Lui => OpResult::Alu { dest: rt, res: Some(zimm << 16u32) },
        Opcode::Mfhi => OpResult::Alu { dest: rd, res: Some(regs.hi) },
        Opcode::Mflo => OpResult::Alu { dest: rd, res: Some(regs.lo) },
        _ => OpResult::Nop,
    }
}

/// What a load or store instruction computes: its effective address, and the
/// value for a store.
pub open spec fn evaluate_load_store_spec(op: Opcode, ins: u32, regs: Registers) -> OpResult {
    let s = regs.general[field_rs(ins) as int];
    let t = regs.general[field_rt(ins) as int];
    let rd = field_rd(ins);
    let rt = field_rt(ins);
    let ea = wrap32(s + simm(ins));
    match op {
        Opcode::Lw => OpResult::Load { dest: rt, addr: ea, kind: LoadKind::Word },
        Opcode::Lh => OpResult::Load { dest: rt, addr: ea, kind: LoadKind::IHalf },
        Opcode::Lhu => OpResult::Load { dest: rt, addr: ea, kind: LoadKind::UHalf },
        Opcode::Lb => OpResult::Load { dest: rt, addr: ea, kind: LoadKind::IByte },
        Opcode::Lbu => OpResult::Load { dest: rt, addr: ea, kind: LoadKind::UByte },
        Opcode::Lwl => OpResult::Load { dest: rt, addr: ea, kind: LoadKind::WordLeft },
        Opcode::Lwr => OpResult::Load { dest: rt, addr: ea, kind: LoadKind::WordRight },
        Opcode::Sw => OpResult::Store { addr: ea, kind: StoreKind::Word(t) },
        Opcode::Sh => OpResult::Store { addr: ea, kind: StoreKind::Half(t as u16) },
        Opcode::Sb => OpResult::Store { addr: ea, kind: StoreKind::Byte(t as u8) },
        Opcode::Swl => OpResult::Store { addr: ea, kind: StoreKind::WordLeft(t) },
        Opcode::Swr => OpResult::Store { addr: ea, kind: StoreKind::WordRight(t) },
        _ => OpResult::Nop,
    }
}

/// What a branch, jump, multiply, divide or trap instruction computes.
pub open spec fn evaluate_other_spec(op: Opcode, ins: u32, regs: Registers) -> Option<OpResult> {
    let s = regs.general[field_rs(ins) as int];
    let t = regs.general[field_rt(ins) as int];
    let rd = field_rd(ins);
    let rt = field_rt(ins);
    let br = branch_target(regs.pc, ins);
    match op {
        Opcode::Beq => Some(OpResult::Branch { addr: taken(s == t, br), link: false }),
        Opcode::Bne => Some(OpResult::Branch { addr: taken(s != t, br), link: false }),
        Opcode::Blez => Some(OpResult::Branch { addr: taken(signed(s) <= 0, br), link: false }),
        Opcode::Bgtz => Some(OpResult::Branch { addr: taken(signed(s) > 0, br), link: false }),
        Opcode::Bltz => Some(OpResult::Branch { addr: taken(signed(s) < 0, br), link: false }),
        Opcode::Bgez => Some(OpResult::Branch { addr: taken(signed(s) >= 0, br), link: false }),
        Opcode::Bltzal => Some(OpResult::Branch { addr: taken(signed(s) < 0, br), link: true }),
        Opcode::Bgezal => Some(OpResult::Branch { addr: taken(signed(s) >= 0, br), link: true }),
        Opcode::J => Some(
            OpResult::Jump { addr: jump_target(regs.pc, ins), link: false, link_reg: 31 },
        ),
        Opcode::Jal => Some(
            OpResult::Jump { addr: jump_target(regs.pc, ins), link: true, link_reg: 31 },
        ),
        Opcode::Mult => Some(OpResult::MulDiv { res: Some(hi_lo(signed(s) * signed(t))) }),
        Opcode::Multu => Some(OpResult::MulDiv { res: Some(hi_lo(s * t)) }),
        Opcode::Div => Some(
            OpResult::MulDiv {
                res: if t == 0 || (s == 0x8000_0000 && t == 0xFFFF_FFFF) {
                    None
                } else {
                    Some(
                        (
                            wrap32(rem_trunc(signed(s), signed(t))),
                            wrap32(div_trunc(signed(s), signed(t))),
                        ),
                    )
                },
            },
        ),
        Opcode::Divu => Some(
            OpResult::MulDiv {
                res: if t == 0 {
                    None
                } else {
                    Some(((s % t) as u32, (s / t) as u32))
                },
            },
        ),
        Opcode::Jr => Some(OpResult::Jump { addr: s, link: false, link_reg: 31 }),
        Opcode::Jalr => Some(OpResult::Jump { addr: s, link: true, link_reg: rd }),
        Opcode::Break => Some(OpResult::Break),
        Opcode::Syscall => Some(OpResult::Syscall),
        Opcode::Rfe => Some(OpResult::Rfe),
        _ => None,
    }
}

/// What an instruction computes from the registers `regs` that it reads.
pub open spec fn evaluate(op: Opcode, ins: u32, regs: Registers) -> Option<OpResult> {
    if op.spec_is_alu() {
        Some(evaluate_alu_spec(op, ins, regs))
    } else if op.spec_is_load_store() {
        Some(evaluate_load_store_spec(op, ins, regs))
    } else {
        evaluate_other_spec(op, ins, regs)
    }
}

impl OpResult {
    /// Decode a word and evaluate it against `regs`. `None` for a word that
    /// is no instruction and for one this evaluation does not cover (moves
    /// to HI/LO and the coprocessor moves).
    pub fn decode_and_evaluate(ins: u32, regs: &Registers) -> (r: Option<Self>)
        requires
            decode_spec(ins) matches Some(op) && op.targets_from_pc() ==> regs.pc >= 4,
        ensures
            r == (match decode_spec(ins) {
                Some(op) => evaluate(op, ins, *regs),
                None => None,
            }),
    {
        let op = match Opcode::decode(ins) {
            Some(op) => op,
            None => return None,
        };
        if op.is_alu() {
            Some(OpResult::evaluate_alu(op, ins, regs))
        } else if op.is_load_store() {
            Some(OpResult::evaluate_load_store(op, ins, regs))
        } else {
            OpResult::evaluate_other(op, ins, regs)
        }
    }

    /// Arithmetic, logic, shifts and moves from HI/LO.
    pub(crate) fn evaluate_alu(op: Opcode, ins: u32, regs: &Registers) -> (r: OpResult)
        requires
            op.spec_is_alu(),
        ensures
            r == evaluate_alu_spec(op, ins, *regs),
    {
        proof {
            lemma_fields(ins);
        }
        let rs: usize = ((ins >> 21u32) & 0x1Fu32) as usize;
        let rt: usize = ((ins >> 16u32) & 0x1Fu32) as usize;
        let rd: usize = ((ins >> 11u32) & 0x1Fu32) as usize;
        let shamt: u32 = (ins >> 6u32) & 0x1Fu32;
        let imm: u32 = ins & 0xFFFFu32;
        let imm16: i16 = (imm as u16) as i16;
        let imm_sext: u32 = imm16 as u32;
        let target: u32 = ins & 0x03FF_FFFFu32;
        let s: u32 = regs.general[rs];
        let t: u32 = regs.general[rt];
        proof {
            lemma_sext16(imm as u16);
            lemma_signed(s);
            lemma_signed(t);
            lemma_masks(s);
            assert(simm(ins) == imm16 as int);
            lemma_wrapping_add(s, simm(ins));
            lemma_wrapping(s, t);
        }
        match op {
            Opcode::Add => {
                let res = match (s as i32).checked_add(t as i32) {
                    Some(v) => {
                        proof { lemma_wrap(v, signed(s) + signed(t)); }
                        Some(v as u32)
                    },
                    None => None,
                };
                OpResult::Alu { dest: rd, res }
            },
            Opcode::Addu => OpResult::Alu { dest: rd, res: Some(s.wrapping_add(t)) },
            Opcode::Sub => {
                let res = match (s as i32).checked_sub(t as i32) {
                    Some(v) => {
                        proof { lemma_wrap(v, signed(s) - signed(t)); }
                        Some(v as u32)
                    },
                    None => None,
                };
                OpResult::Alu { dest: rd, res }
            },
            Opcode::Subu => OpResult::Alu { dest: rd, res: Some(s.wrapping_sub(t)) },
            Opcode::And => OpResult::Alu { dest: rd, res: Some(s & t) },
            Opcode::Or => OpResult::Alu { dest: rd, res: Some(s | t) },
            Opcode::Xor => OpResult::Alu { dest: rd, res: Some(s ^ t) },
            Opcode::Nor => OpResult::Alu { dest: rd, res: Some(!(s | t)) },
            Opcode::Slt => OpResult::Alu {
                dest: rd,
                res: Some(if (s as i32) < (t as i32) { 1u32 } else { 0u32 }),
            },
            Opcode::Sltu => OpResult::Alu { dest: rd, res: Some(if s < t { 1u32 } else { 0u32 }) },
            Opcode::Sll => OpResult::Alu { dest: rd, res: Some(t << shamt) },
            Opcode::Srl => OpResult::Alu { dest: rd, res: Some(t >> shamt) },
            Opcode::Sra => OpResult::Alu { dest: rd, res: Some(((t as i32) >> shamt) as u32) },
            Opcode::Sllv => OpResult::Alu { dest: rd, res: Some(t << (s & 0x1Fu32)) },
            Opcode::Srlv => OpResult::Alu { dest: rd, res: Some(t >> (s & 0x1Fu32)) },
            Opcode::Srav => OpResult::Alu {
                dest: rd,
                res: Some(((t as i32) >> (s & 0x1Fu32)) as u32),
            },
            Opcode::Addi => {
                let res = match (s as i32).checked_add(imm16 as i32) {
                    Some(v) => {
                        proof { lemma_wrap(v, signed(s) + simm(ins)); }
                        Some(v as u32)
                    },
                    None => None,
                };
                OpResult::Alu { dest: rt, res }
            },
            Opcode::Addiu => OpResult::Alu { dest: rt, res: Some(s.wrapping_add(imm_sext)) },
            Opcode::Slti => OpResult::Alu {
                dest: rt,
                res: Some(if (s as i32) < (imm16 as i32) { 1u32 } else { 0u32 }),
            },
            Opcode::Sltiu => OpResult::Alu {
                dest: rt,
                res: Some(if s < imm_sext { 1u32 } else { 0u32 }),
            },
            Opcode::Andi => OpResult::Alu { dest: rt, res: Some(s & imm) },
            Opcode::Ori => OpResult::Alu { dest: rt, res: Some(s | imm) },
            Opcode::Xori => OpResult::Alu { dest: rt, res: Some(s ^ imm) },
            Opcode::Lui => OpResult::Alu { dest: rt, res: Some(imm << 16u32) },
            Opcode::Mfhi => OpResult::Alu { dest: rd, res: Some(regs.hi) },
            Opcode::Mflo => OpResult::Alu { dest: rd, res: Some(regs.lo) },
            _ => OpResult::Nop,
        }
    }

    /// Loads and stores: the effective address and what is stored.
    pub(crate) fn evaluate_load_store(op: Opcode, ins: u32, regs: &Registers) -> (r: OpResult)
        requires
            op.spec_is_load_store(),
        ensures
            r == evaluate_load_store_spec(op, ins, *regs),
    {
        proof {
            lemma_fields(ins);
        }
        let rs: usize = ((ins >> 21u32) & 0x1Fu32) as usize;
        let rt: usize = ((ins >> 16u32) & 0x1Fu32) as usize;
        let rd: usize = ((ins >> 11u32) & 0x1Fu32) as usize;
        let shamt: u32 = (ins >> 6u32) & 0x1Fu32;
        let imm: u32 = ins & 0xFFFFu32;
        let imm16: i16 = (imm as u16) as i16;
        let imm_sext: u32 = imm16 as u32;
        let target: u32 = ins & 0x03FF_FFFFu32;
        let s: u32 = regs.general[rs];
        let t: u32 = regs.general[rt];
        proof {
            lemma_sext16(imm as u16);
            lemma_signed(s);
            lemma_signed(t);
            lemma_masks(s);
            assert(simm(ins) == imm16 as int);
        }
        let ea: u32 = s.wrapping_add(imm_sext);
        proof {
            lemma_wrapping_add(s, simm(ins));
        }
        match op {
            Opcode::Lw => OpResult::Load {
                dest: rt,
                addr: ea,
                kind: LoadKind::Word,
            },
            Opcode::Lh => OpResult::Load {
                dest: rt,
                addr: ea,
                kind: LoadKind::IHalf,
            },
            Opcode::Lhu => OpResult::Load {
                dest: rt,
                addr: ea,
                kind: LoadKind::UHalf,
            },
            Opcode::Lb => OpResult::Load {
                dest: rt,
                addr: ea,
                kind: LoadKind::IByte,
            },
            Opcode::Lbu => OpResult::Load {
                dest: rt,
                addr: ea,
                kind: LoadKind::UByte,
            },
            Opcode::Lwl => OpResult::Load {
                dest: rt,
                addr: ea,
                kind: LoadKind::WordLeft,
            },
            Opcode::Lwr => OpResult::Load {
                dest: rt,
                addr: ea,
                kind: LoadKind::WordRight,
            },
            Opcode::Sw => OpResult::Store { addr: ea, kind: StoreKind::Word(t) },
            Opcode::Sh => OpResult::Store {
                addr: ea,
                kind: StoreKind::Half(t as u16),
            },
            Opcode::Sb => OpResult::Store {
                addr: ea,
                kind: StoreKind::Byte(t as u8),
            },
            Opcode::Swl => OpResult::Store {
                addr: ea,
                kind: StoreKind::WordLeft(t),
            },
            Opcode::Swr => OpResult::Store {
                addr: ea,
                kind: StoreKind::WordRight(t),
            },
            _ => OpResult::Nop,
        }
    }

    /// Branches, jumps, multiply/divide and traps.
    fn evaluate_other(op: Opcode, ins: u32, regs: &Registers) -> (r: Option<OpResult>)
        requires
            !op.spec_is_alu() && !op.spec_is_load_store(),
            op.targets_from_pc() ==> regs.pc >= 4,
        ensures
            r == evaluate_other_spec(op, ins, *regs),
    {
        proof {
            lemma_fields(ins);
        }
        let rs: usize = ((ins >> 21u32) & 0x1Fu32) as usize;
        let rt: usize = ((ins >> 16u32) & 0x1Fu32) as usize;
        let rd: usize = ((ins >> 11u32) & 0x1Fu32) as usize;
        let shamt: u32 = (ins >> 6u32) & 0x1Fu32;
        let imm: u32 = ins & 0xFFFFu32;
        let imm16: i16 = (imm as u16) as i16;
        let imm_sext: u32 = imm16 as u32;
        let target: u32 = ins & 0x03FF_FFFFu32;
        let s: u32 = regs.general[rs];
        let t: u32 = regs.general[rt];
        proof {
            lemma_sext16(imm as u16);
            lemma_signed(s);
            lemma_signed(t);
            lemma_masks(s);
            assert(simm(ins) == imm16 as int);
        }
        let r = match op {
            Opcode::Beq | Opcode::Bne | Opcode::Blez | Opcode::Bgtz | Opcode::Bltz
            | Opcode::Bgez | Opcode::Bltzal | Opcode::Bgezal => {
                let dest: u32 = (regs.pc - 4).wrapping_add(imm_sext << 2u32);
                let cond = match op {
                    Opcode::Beq => s == t,
                    Opcode::Bne => s != t,
                    Opcode::Blez => (s as i32) <= 0,
                    Opcode::Bgtz => (s as i32) > 0,
                    Opcode::Bltz | Opcode::Bltzal => (s as i32) < 0,
                    _ => (s as i32) >= 0,
                };
                let link = match op {
                    Opcode::Bltzal | Opcode::Bgezal => true,
                    _ => false,
                };
                OpResult::Branch { addr: if cond { Some(dest) } else { None }, link }
            },
            Opcode::J => OpResult::Jump {
                addr: ((regs.pc - 4) & 0xF000_0000u32) | (target << 2u32),
                link: false,
                link_reg: 31,
            },
            Opcode::Jal => OpResult::Jump {
                addr: ((regs.pc - 4) & 0xF000_0000u32) | (target << 2u32),
                link: true,
                link_reg: 31,
            },
            Opcode::Mult => OpResult::MulDiv { res: Some(mult_signed(s, t)) },
            Opcode::Multu => OpResult::MulDiv { res: Some(mult_unsigned(s, t)) },
            Opcode::Div => OpResult::MulDiv { res: div_signed(s, t) },
            Opcode::Divu => OpResult::MulDiv {
                res: if t == 0 {
                    None
                } else {
                    Some((s % t, s / t))
                },
            },
            Opcode::Jr => OpResult::Jump { addr: s, link: false, link_reg: 31 },
            Opcode::Jalr => OpResult::Jump { addr: s, link: true, link_reg: rd },
            Opcode::Break => OpResult::Break,
            Opcode::Syscall => OpResult::Syscall,
            Opcode::Rfe => OpResult::Rfe,
            _ => return None,
        };
        Some(r)
    }

    pub open spec fn spec_has_delay_slot(&self) -> bool {
        match *self {
            OpResult::Jump { .. } | OpResult::Branch { .. } => true,
            _ => false,
        }
    }

    /// Branch or jump delay slot.
    #[verifier::when_used_as_spec(spec_has_delay_slot)]
    pub fn has_delay_slot(&self) -> (r: bool)
        ensures
            r == self.spec_has_delay_slot(),
    {
        match *self {
            OpResult::Jump { .. } | OpResult::Branch { .. } => true,
            _ => false,
        }
    }
}

/// HI and LO of the signed 64-bit product of two words.
pub fn mult_signed(a: u32, b: u32) -> (r: (u32, u32))
    ensures
        r == hi_lo(signed(a) * signed(b)),
{
    proof {
        lemma_signed(a);
        lemma_signed(b);
    }
    let x: i64 = (a as i32) as i64;
    let y: i64 = (b as i32) as i64;
    assert(-0x8000_0000 <= x <= 0x7FFF_FFFF);
    assert(-0x8000_0000 <= y <= 0x7FFF_FFFF);
    assert(-0x4000_0000_0000_0000 <= x * y <= 0x4000_0000_0000_0000) by (nonlinear_arith)
        requires
            -0x8000_0000 <= x <= 0x7FFF_FFFF,
            -0x8000_0000 <= y <= 0x7FFF_FFFF,
    ;
    let p: i64 = x * y;
    let u: u64 = p as u64;
    proof {
        lemma_split64_signed(p);
    }
    (((u >> 32u64) as u32), (u as u32))
}

/// HI and LO of the unsigned 64-bit product of two words.
pub fn mult_unsigned(a: u32, b: u32) -> (r: (u32, u32))
    ensures
        r == hi_lo(a * b),
{
    assert(0 <= a * b <= 0xFFFF_FFFE_0000_0001) by (nonlinear_arith);
    let p: u64 = (a as u64) * (b as u64);
    proof {
        lemma_split64(p);
    }
    (((p >> 32u64) as u32), (p as u32))
}

/// Remainder and quotient of a signed division, `None` for a division by
/// zero and for the one overflowing case (-2^31 / -1).
pub fn div_signed(a: u32, b: u32) -> (r: Option<(u32, u32)>)
    ensures
        r == (if b == 0 || (a == 0x8000_0000 && b == 0xFFFF_FFFF) {
            None
        } else {
            Some((wrap32(rem_trunc(signed(a), signed(b))), wrap32(div_trunc(signed(a), signed(b)))))
        }),
{
    proof {
        lemma_signed(a);
        lemma_signed(b);
    }
    if b == 0 || (a == 0x8000_0000u32 && b == 0xFFFF_FFFFu32) {
        return None;
    }
    let x: i32 = a as i32;
    let y: i32 = b as i32;
    let q: i32 = match x.checked_div(y) {
        Some(q) => q,
        None => {
            proof { lemma_div_trunc_fits(x as int, y as int); }
            return None;
        },
    };
    let m: i32 = match x.checked_rem(y) {
        Some(m) => m,
        None => return None,
    };
    proof {
                lemma_wrap(q, div_trunc(signed(a), signed(b)));
        lemma_wrap(m, rem_trunc(signed(a), signed(b)));
    }
    Some((m as u32, q as u32))
}


/// The bitwise instructions work bit by bit on the registers `rs` and `rt`
/// (written to `rd`): AND sets the bits set in both, OR those set in either,
/// XOR those set in exactly one (so `x XOR x` is 0), NOR those set in
/// neither. ANDI, ORI and XORI take the immediate zero-extended (its bits
/// above 15 clear) in place of `rt`, and write `rt`.
pub proof fn law_bitwise(ins: u32, regs: Registers)
    ensures
        ({
            let s = regs.general[field_rs(ins) as int];
            let t = regs.general[field_rt(ins) as int];
            let imm = |i: u32| i < 16 && bit(ins, i);
            &&& evaluate_alu_spec(Opcode::And, ins, regs) matches OpResult::Alu { dest, res: Some(x) }
                && dest == field_rd(ins) && forall|i: u32| i < 32 ==> #[trigger] bit(x, i) == (bit(s, i) && bit(t, i))
            &&& evaluate_alu_spec(Opcode::Or, ins, regs) matches OpResult::Alu { dest, res: Some(x) }
                && dest == field_rd(ins) && forall|i: u32| i < 32 ==> #[trigger] bit(x, i) == (bit(s, i) || bit(t, i))
            &&& evaluate_alu_spec(Opcode::Xor, ins, regs) matches OpResult::Alu { dest, res: Some(x) }
                && dest == field_rd(ins) && forall|i: u32| i < 32 ==> #[trigger] bit(x, i) == (bit(s, i) != bit(t, i))
            &&& evaluate_alu_spec(Opcode::Nor, ins, regs) matches OpResult::Alu { dest, res: Some(x) }
                && dest == field_rd(ins) && forall|i: u32| i < 32 ==> #[trigger] bit(x, i) == !(bit(s, i) || bit(t, i))
            &&& evaluate_alu_spec(Opcode::Andi, ins, regs) matches OpResult::Alu { dest, res: Some(x) }
                && dest == field_rt(ins) && forall|i: u32| i < 32 ==> #[trigger] bit(x, i) == (bit(s, i) && imm(i))
            &&& evaluate_alu_spec(Opcode::Ori, ins, regs) matches OpResult::Alu { dest, res: Some(x) }
                && dest == field_rt(ins) && forall|i: u32| i < 32 ==> #[trigger] bit(x, i) == (bit(s, i) || imm(i))
            &&& evaluate_alu_spec(Opcode::Xori, ins, regs) matches OpResult::Alu { dest, res: Some(x) }
                && dest == field_rt(ins) && forall|i: u32| i < 32 ==> #[trigger] bit(x, i) == (bit(s, i) != imm(i))
        }),
{
    let s = regs.general[field_rs(ins) as int];
    let t = regs.general[field_rt(ins) as int];
    let z = ins & 0xFFFFu32;
    assert forall|i: u32| i < 32 implies #[trigger] bit(s & t, i) == (bit(s, i) && bit(t, i)) by {
        lemma_bit_logic(s, t, i);
    }
    assert forall|i: u32| i < 32 implies #[trigger] bit(s | t, i) == (bit(s, i) || bit(t, i)) by {
        lemma_bit_logic(s, t, i);
    }
    assert forall|i: u32| i < 32 implies #[trigger] bit(s ^ t, i) == (bit(s, i) != bit(t, i)) by {
        lemma_bit_logic(s, t, i);
    }
    assert forall|i: u32| i < 32 implies #[trigger] bit(!(s | t), i) == !(bit(s, i) || bit(t, i)) by {
        lemma_bit_logic(s, t, i);
    }
    assert forall|i: u32| i < 32 implies #[trigger] bit(s & z, i) == (bit(s, i) && (i < 16 && bit(ins, i))) by {
        lemma_bit_logic(s, z, i);
        lemma_bit_zimm(ins, i);
    }
    assert forall|i: u32| i < 32 implies #[trigger] bit(s | z, i) == (bit(s, i) || (i < 16 && bit(ins, i))) by {
        lemma_bit_logic(s, z, i);
        lemma_bit_zimm(ins, i);
    }
    assert forall|i: u32| i < 32 implies #[trigger] bit(s ^ z, i) == (bit(s, i) != (i < 16 && bit(ins, i))) by {
        lemma_bit_logic(s, z, i);
        lemma_bit_zimm(ins, i);
    }
}

/// The shifts move the bits of `rt` by the shift amount (the `shamt` field,
/// or the low five bits of `rs` for the variable forms): a left shift fills
/// with zeros from below, a logical right shift fills with zeros from above,
/// an arithmetic right shift copies the sign bit from above.
pub proof fn law_shifts(ins: u32, regs: Registers)
    ensures
        ({
            let s = regs.general[field_rs(ins) as int];
            let t = regs.general[field_rt(ins) as int];
            let sh = (ins >> 6u32) & 0x1Fu32;
            let v = s % 32;
            &&& evaluate_alu_spec(Opcode::Sll, ins, regs) matches OpResult::Alu { dest, res: Some(x) }
                && dest == field_rd(ins) && forall|i: u32| i < 32 ==> #[trigger] bit(x, i) == (i >= sh && bit(t, (i - sh) as u32))
            &&& evaluate_alu_spec(Opcode::Srl, ins, regs) matches OpResult::Alu { dest, res: Some(x) }
                && dest == field_rd(ins) && forall|i: u32| i < 32 ==> #[trigger] bit(x, i) == (i + sh < 32 && bit(t, (i + sh) as u32))
            &&& evaluate_alu_spec(Opcode::Sra, ins, regs) matches OpResult::Alu { dest, res: Some(x) }
                && dest == field_rd(ins) && forall|i: u32| i < 32 ==> #[trigger] bit(x, i) == (if i + sh < 32 {
                    bit(t, (i + sh) as u32)
                } else {
                    bit(t, 31)
                })
            &&& evaluate_alu_spec(Opcode::Sllv, ins, regs) matches OpResult::Alu { dest, res: Some(x) }
                && dest == field_rd(ins) && forall|i: u32| i < 32 ==> #[trigger] bit(x, i) == (i >= v && bit(t, (i - v) as u32))
            &&& evaluate_alu_spec(Opcode::Srlv, ins, regs) matches OpResult::Alu { dest, res: Some(x) }
                && dest == field_rd(ins) && forall|i: u32| i < 32 ==> #[trigger] bit(x, i) == (i + v < 32 && bit(t, (i + v) as u32))
            &&& evaluate_alu_spec(Opcode::Srav, ins, regs) matches OpResult::Alu { dest, res: Some(x) }
                && dest == field_rd(ins) && forall|i: u32| i < 32 ==> #[trigger] bit(x, i) == (if i + v < 32 {
                    bit(t, (i + v) as u32)
                } else {
                    bit(t, 31)
                })
        }),
{
    let s = regs.general[field_rs(ins) as int];
    let t = regs.general[field_rt(ins) as int];
    let sh = (ins >> 6u32) & 0x1Fu32;
    let v = s & 0x1Fu32;
    assert(sh < 32 && v < 32 && v == s % 32) by (bit_vector)
        requires sh == (ins >> 6u32) & 0x1Fu32, v == s & 0x1Fu32;
    assert forall|i: u32| i < 32 implies #[trigger] bit(t << sh, i) == (i >= sh && bit(t, (i - sh) as u32)) by {
        lemma_bit_shifts(t, sh, i);
    }
    assert forall|i: u32| i < 32 implies #[trigger] bit(t >> sh, i) == (i + sh < 32 && bit(t, (i + sh) as u32)) by {
        lemma_bit_shifts(t, sh, i);
    }
    assert forall|i: u32| i < 32 implies #[trigger] bit(((t as i32) >> sh) as u32, i) == (if i + sh < 32 {
        bit(t, (i + sh) as u32)
    } else {
        bit(t, 31)
    }) by {
        lemma_bit_shifts(t, sh, i);
    }
    assert forall|i: u32| i < 32 implies #[trigger] bit(t << v, i) == (i >= v && bit(t, (i - v) as u32)) by {
        lemma_bit_shifts(t, v, i);
    }
    assert forall|i: u32| i < 32 implies #[trigger] bit(t >> v, i) == (i + v < 32 && bit(t, (i + v) as u32)) by {
        lemma_bit_shifts(t, v, i);
    }
    assert forall|i: u32| i < 32 implies #[trigger] bit(((t as i32) >> v) as u32, i) == (if i + v < 32 {
        bit(t, (i + v) as u32)
    } else {
        bit(t, 31)
    }) by {
        lemma_bit_shifts(t, v, i);
    }
}

/// The arithmetic instructions compute on the register values as numbers.
/// ADDU, SUBU and ADDIU give the sum or difference modulo 2^32. ADD, SUB and
/// ADDI give the signed sum or difference when it fits in 32 bits and
/// nothing (an overflow) otherwise. SLT, SLTU, SLTI and SLTIU give 1 when the
/// first operand is below the second (signed, unsigned, against the
/// sign-extended immediate) and 0 otherwise. LUI puts the immediate in the
/// high half word. MFHI and MFLO read HI and LO.
pub proof fn law_arithmetic(ins: u32, regs: Registers)
    ensures
        ({
            let s = regs.general[field_rs(ins) as int];
            let t = regs.general[field_rt(ins) as int];
            let m = 0x1_0000_0000int;
            let imm = simm(ins);
            &&& evaluate_alu_spec(Opcode::Addu, ins, regs) matches OpResult::Alu { dest, res: Some(x) }
                && dest == field_rd(ins) && x as int == (s + t) % m
            &&& evaluate_alu_spec(Opcode::Subu, ins, regs) matches OpResult::Alu { dest, res: Some(x) }
                && dest == field_rd(ins) && x as int == (s - t) % m
            &&& evaluate_alu_spec(Opcode::Addiu, ins, regs) matches OpResult::Alu { dest, res: Some(x) }
                && dest == field_rt(ins) && x as int == (s + imm) % m
            &&& evaluate_alu_spec(Opcode::Add, ins, regs) matches OpResult::Alu { dest, res }
                && dest == field_rd(ins)
                && (res is Some <==> i32::MIN <= signed(s) + signed(t) <= i32::MAX)
                && (res matches Some(x) ==> signed(x) == signed(s) + signed(t))
            &&& evaluate_alu_spec(Opcode::Sub, ins, regs) matches OpResult::Alu { dest, res }
                && dest == field_rd(ins)
                && (res is Some <==> i32::MIN <= signed(s) - signed(t) <= i32::MAX)
                && (res matches Some(x) ==> signed(x) == signed(s) - signed(t))
            &&& evaluate_alu_spec(Opcode::Addi, ins, regs) matches OpResult::Alu { dest, res }
                && dest == field_rt(ins)
                && (res is Some <==> i32::MIN <= signed(s) + imm <= i32::MAX)
                && (res matches Some(x) ==> signed(x) == signed(s) + imm)
            &&& evaluate_alu_spec(Opcode::Slt, ins, regs) matches OpResult::Alu { dest, res: Some(x) }
                && dest == field_rd(ins) && x == (if signed(s) < signed(t) { 1u32 } else { 0u32 })
            &&& evaluate_alu_spec(Opcode::Sltu, ins, regs) matches OpResult::Alu { dest, res: Some(x) }
                && dest == field_rd(ins) && x == (if s < t { 1u32 } else { 0u32 })
            &&& evaluate_alu_spec(Opcode::Slti, ins, regs) matches OpResult::Alu { dest, res: Some(x) }
                && dest == field_rt(ins) && x == (if signed(s) < imm { 1u32 } else { 0u32 })
            &&& evaluate_alu_spec(Opcode::Sltiu, ins, regs) matches OpResult::Alu { dest, res: Some(x) }
                && dest == field_rt(ins) && x == (if (s as int) < imm % m { 1u32 } else { 0u32 })
            &&& evaluate_alu_spec(Opcode::Lui, ins, regs) matches OpResult::Alu { dest, res: Some(x) }
                && dest == field_rt(ins) && x as int == (ins % 0x1_0000) * 0x1_0000
            &&& evaluate_alu_spec(Opcode::Mfhi, ins, regs) == OpResult::Alu { dest: field_rd(ins), res: Some(regs.hi) }
            &&& evaluate_alu_spec(Opcode::Mflo, ins, regs) == OpResult::Alu { dest: field_rd(ins), res: Some(regs.lo) }
        }),
{
    let s = regs.general[field_rs(ins) as int];
    let t = regs.general[field_rt(ins) as int];
    let imm = simm(ins);
    if i32::MIN <= signed(s) + signed(t) <= i32::MAX {
        lemma_signed_wrap(signed(s) + signed(t));
    }
    if i32::MIN <= signed(s) - signed(t) <= i32::MAX {
        lemma_signed_wrap(signed(s) + -signed(t));
    }
    if i32::MIN <= signed(s) + imm <= i32::MAX {
        lemma_signed_wrap(signed(s) + imm);
    }
    let z = ins & 0xFFFFu32;
    assert(z == ins % 0x1_0000 && (z << 16u32) as int == z * 0x1_0000) by (bit_vector)
        requires z == ins & 0xFFFFu32;
}


/// The conditional branches compare register `rs` (with `rt`, for BEQ and
/// BNE) as the machine reads them: BEQ on equal, BNE on different, BLEZ on
/// a signed value at most 0, BGTZ above 0, BLTZ and BLTZAL below 0, BGEZ and
/// BGEZAL at least 0. A branch that is taken goes to the address of its delay
/// slot (`pc - 4`, `pc` being the address after the delay slot) plus four
/// times the signed offset; the two "and link" forms link.
pub proof fn law_branch_conditions(ins: u32, regs: Registers)
    ensures
        ({
            let s = regs.general[field_rs(ins) as int];
            let t = regs.general[field_rt(ins) as int];
            let target = |a: u32| a as int == (regs.pc - 4 + 4 * simm(ins)) % 0x1_0000_0000int;
            &&& evaluate(Opcode::Beq, ins, regs) matches Some(OpResult::Branch { addr, link })
                && !link && (addr is Some <==> s == t) && (addr matches Some(a) ==> target(a))
            &&& evaluate(Opcode::Bne, ins, regs) matches Some(OpResult::Branch { addr, link })
                && !link && (addr is Some <==> s != t) && (addr matches Some(a) ==> target(a))
            &&& evaluate(Opcode::Blez, ins, regs) matches Some(OpResult::Branch { addr, link })
                && !link && (addr is Some <==> signed(s) <= 0) && (addr matches Some(a) ==> target(a))
            &&& evaluate(Opcode::Bgtz, ins, regs) matches Some(OpResult::Branch { addr, link })
                && !link && (addr is Some <==> signed(s) > 0) && (addr matches Some(a) ==> target(a))
            &&& evaluate(Opcode::Bltz, ins, regs) matches Some(OpResult::Branch { addr, link })
                && !link && (addr is Some <==> signed(s) < 0) && (addr matches Some(a) ==> target(a))
            &&& evaluate(Opcode::Bgez, ins, regs) matches Some(OpResult::Branch { addr, link })
                && !link && (addr is Some <==> signed(s) >= 0) && (addr matches Some(a) ==> target(a))
            &&& evaluate(Opcode::Bltzal, ins, regs) matches Some(OpResult::Branch { addr, link })
                && link && (addr is Some <==> signed(s) < 0) && (addr matches Some(a) ==> target(a))
            &&& evaluate(Opcode::Bgezal, ins, regs) matches Some(OpResult::Branch { addr, link })
                && link && (addr is Some <==> signed(s) >= 0) && (addr matches Some(a) ==> target(a))
        }),
{
}


/// Loads and stores address the value of `rs` plus the signed offset,
/// modulo 2^32. A load names `rt` and its width and signedness; a store
/// carries the low byte, low half word, or the whole word of `rt`.
pub proof fn law_memory_ops(ins: u32, regs: Registers)
    ensures
        ({
            let s = regs.general[field_rs(ins) as int];
            let t = regs.general[field_rt(ins) as int];
            let ea = |a: u32| a as int == (s + simm(ins)) % 0x1_0000_0000int;
            let load = |op: Opcode, k: LoadKind|
                evaluate(op, ins, regs) matches Some(OpResult::Load { dest, addr, kind })
                    && dest == field_rt(ins) && ea(addr) && kind == k;
            &&& load(Opcode::Lw, LoadKind::Word)
            &&& load(Opcode::Lh, LoadKind::IHalf)
            &&& load(Opcode::Lhu, LoadKind::UHalf)
            &&& load(Opcode::Lb, LoadKind::IByte)
            &&& load(Opcode::Lbu, LoadKind::UByte)
            &&& evaluate(Opcode::Sw, ins, regs) matches Some(OpResult::Store { addr, kind: StoreKind::Word(v) })
                && ea(addr) && v == t
            &&& evaluate(Opcode::Sh, ins, regs) matches Some(OpResult::Store { addr, kind: StoreKind::Half(v) })
                && ea(addr) && v as int == t % 0x1_0000
            &&& evaluate(Opcode::Sb, ins, regs) matches Some(OpResult::Store { addr, kind: StoreKind::Byte(v) })
                && ea(addr) && v as int == t % 0x100
        }),
{
    let t = regs.general[field_rt(ins) as int];
    assert((t as u16) as int == t % 0x1_0000 && (t as u8) as int == t % 0x100) by (bit_vector);
}

/// J and JAL go to the 26-bit target times four, within the 256 MiB segment
/// of their delay slot (`pc - 4`); JAL links `$ra`. JR and JALR go to the
/// address in `rs`; JALR links `rd`.
pub proof fn law_jumps(ins: u32, regs: Registers)
    requires
        regs.pc >= 4,
    ensures
        ({
            let s = regs.general[field_rs(ins) as int];
            let seg = ((regs.pc - 4) / 0x1000_0000) * 0x1000_0000;
            let far = |a: u32| a as int == seg + (ins % 0x400_0000) * 4;
            &&& evaluate(Opcode::J, ins, regs) matches Some(OpResult::Jump { addr, link, link_reg })
                && far(addr) && !link
            &&& evaluate(Opcode::Jal, ins, regs) matches Some(OpResult::Jump { addr, link, link_reg })
                && far(addr) && link && link_reg == 31
            &&& evaluate(Opcode::Jr, ins, regs) matches Some(OpResult::Jump { addr, link, .. })
                && addr == s && !link
            &&& evaluate(Opcode::Jalr, ins, regs) matches Some(OpResult::Jump { addr, link, link_reg })
                && addr == s && link && link_reg == field_rd(ins)
        }),
{
    let d = (regs.pc - 4) as u32;
    assert(((d & 0xF000_0000u32) | ((ins & 0x03FF_FFFFu32) << 2u32)) as int == (d as int / 0x1000_0000)
        * 0x1000_0000 + (ins as int % 0x400_0000) * 4) by (bit_vector);
}

/// MULTU puts the 64-bit product in HI:LO; MULT the signed 64-bit product
/// (HI read as signed). DIVU gives the quotient in LO and the remainder in
/// HI; DIV the quotient rounded toward zero and the remainder with the sign
/// of the dividend, smaller than the divisor. A division by zero, and the
/// signed one of -2^31 by -1, give no result.
pub proof fn law_mul_div(ins: u32, regs: Registers)
    ensures
        ({
            let s = regs.general[field_rs(ins) as int];
            let t = regs.general[field_rt(ins) as int];
            let w = 0x1_0000_0000int;
            &&& evaluate(Opcode::Multu, ins, regs) matches Some(OpResult::MulDiv { res: Some((hi, lo)) })
                && hi * w + lo == s * t
            &&& evaluate(Opcode::Mult, ins, regs) matches Some(OpResult::MulDiv { res: Some((hi, lo)) })
                && signed(hi) * w + lo == signed(s) * signed(t)
            &&& evaluate(Opcode::Divu, ins, regs) matches Some(OpResult::MulDiv { res })
                && (res is None <==> t == 0)
                && (res matches Some((hi, lo)) ==> lo * t + hi == s && hi < t)
            &&& evaluate(Opcode::Div, ins, regs) matches Some(OpResult::MulDiv { res })
                && (res is None <==> (t == 0 || (signed(s) == -0x8000_0000 && signed(t) == -1)))
                && (res matches Some((hi, lo)) ==> {
                    let (q, r, x, d) = (signed(lo), signed(hi), signed(s), signed(t));
                    &&& q * d + r == x
                    &&& (if r >= 0 { r } else { -r }) < (if d >= 0 { d } else { -d })
                    &&& (r == 0 || (r < 0) == (x < 0))
                })
        }),
{
    let s = regs.general[field_rs(ins) as int];
    let t = regs.general[field_rt(ins) as int];
    let w = 0x1_0000_0000int;
    // unsigned product
    let p = s * t;
    assert(0 <= p < w * w) by (nonlinear_arith)
        requires p == s * t, 0 <= s < 0x1_0000_0000, 0 <= t < 0x1_0000_0000, w == 0x1_0000_0000;
    assert(p == w * (p / w) + p % w && 0 <= p / w < w && 0 <= p % w < w) by (nonlinear_arith)
        requires 0 <= p < w * w, w == 0x1_0000_0000;
    // signed product
    let (x, d) = (signed(s), signed(t));
    let q = x * d;
    assert(-0x4000_0000_0000_0000 <= q <= 0x4000_0000_0000_0000) by (nonlinear_arith)
        requires q == x * d, -0x8000_0000 <= x < 0x8000_0000, -0x8000_0000 <= d < 0x8000_0000;
    assert(q == w * (q / w) + q % w && -0x8000_0000 <= q / w < 0x8000_0000 && 0 <= q % w < w) by (nonlinear_arith)
        requires -0x4000_0000_0000_0000 <= q <= 0x4000_0000_0000_0000, w == 0x1_0000_0000;
    crate::bits::lemma_signed_wrap(q / w);
    // unsigned division
    if t != 0 {
        assert(s == t * (s / t) + s % t && 0 <= s % t < t && 0 <= s / t <= s) by (nonlinear_arith)
            requires 0 <= s, t > 0;
        assert((s / t) * t == t * (s / t)) by (nonlinear_arith);
    }
    // signed division
    if t != 0 && !(x == -0x8000_0000 && d == -1) {
        crate::bits::lemma_div_trunc_fits(x, d);
        crate::bits::lemma_signed_wrap(div_trunc(x, d));
        crate::bits::lemma_signed_wrap(rem_trunc(x, d));
        lemma_div_rem_trunc(x, d);
    }
    assert(signed(t) == -1 <==> t == 0xFFFF_FFFF);
    assert(signed(s) == -0x8000_0000 <==> s == 0x8000_0000);
    assert(evaluate(Opcode::Multu, ins, regs) matches Some(OpResult::MulDiv { res: Some((hi, lo)) })
        && hi * w + lo == s * t);
    assert(evaluate(Opcode::Mult, ins, regs) matches Some(OpResult::MulDiv { res: Some((hi, lo)) })
        && signed(hi) * w + lo == signed(s) * signed(t));
    assert(evaluate(Opcode::Divu, ins, regs) matches Some(OpResult::MulDiv { res })
        && (res is None <==> t == 0)
        && (res matches Some((hi, lo)) ==> lo * t + hi == s && hi < t));
}

/// Truncated division: quotient times divisor plus remainder gives back the
/// dividend; the remainder is smaller than the divisor and has the sign of
/// the dividend.
proof fn lemma_div_rem_trunc(x: int, d: int)
    requires
        d != 0,
    ensures
        div_trunc(x, d) * d + rem_trunc(x, d) == x,
        (if rem_trunc(x, d) >= 0 { rem_trunc(x, d) } else { -rem_trunc(x, d) }) < (if d >= 0 { d } else { -d }),
        rem_trunc(x, d) == 0 || (rem_trunc(x, d) < 0) == (x < 0),
{
    if x > 0 && d > 0 {
        assert(x == d * (x / d) + x % d && 0 <= x % d < d) by (nonlinear_arith) requires x > 0, d > 0;
        assert((x / d) * d == d * (x / d)) by (nonlinear_arith);
    } else if x < 0 && d < 0 {
        assert(-x == (-d) * ((-x) / (-d)) + (-x) % (-d) && 0 <= (-x) % (-d) < -d) by (nonlinear_arith)
            requires x < 0, d < 0;
        assert(((-x) / (-d)) * d == -((-d) * ((-x) / (-d)))) by (nonlinear_arith);
    } else if x < 0 {
        assert(-x == d * ((-x) / d) + (-x) % d && 0 <= (-x) % d < d) by (nonlinear_arith)
            requires x < 0, d > 0;
        assert(-((-x) / d) * d == -(d * ((-x) / d))) by (nonlinear_arith);
    } else if x > 0 {
        assert(x == (-d) * (x / (-d)) + x % (-d) && 0 <= x % (-d) < -d) by (nonlinear_arith)
            requires x > 0, d < 0;
        assert(-(x / (-d)) * d == (-d) * (x / (-d))) by (nonlinear_arith);
    }
}

} // verus!
