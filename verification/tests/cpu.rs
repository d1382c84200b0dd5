use playastation::cpu::cop0::{BAD_VADDR_IDX, EPC_IDX, STATUS_IDX};
use playastation::cpu::Cpu;
use playastation::interconnect::Bus;
use playastation::run::interpreter::Interpreter;
use playastation::run::CpuExecutor;

fn r(funct: u32, rs: u32, rt: u32, rd: u32, shamt: u32) -> u32 {
    (rs << 21) | (rt << 16) | (rd << 11) | (shamt << 6) | funct
}

fn i(op: u32, rs: u32, rt: u32, imm: u16) -> u32 {
    (op << 26) | (rs << 21) | (rt << 16) | imm as u32
}

const NOP: u32 = 0;

fn run_program(words: &[u32], steps: usize) -> (Cpu, Bus) {
    let mut bus = Bus::default();
    for (n, w) in words.iter().enumerate() {
        bus.ram[4 * n..4 * n + 4].copy_from_slice(&w.to_le_bytes());
    }
    let mut executor = CpuExecutor::<Interpreter>::default();
    executor.cpu.pc = 0;
    executor.block_size = 64;
    for _ in 0..steps {
        executor.run(&mut bus);
    }
    (executor.cpu, bus)
}

#[test]
fn interpreter_alu_and_shifts() {
    let (cpu, _) = run_program(
        &[
            i(0x09, 0, 1, 5),            // addiu $1, $0, 5
            i(0x09, 0, 2, 7),            // addiu $2, $0, 7
            r(0x21, 1, 2, 3, 0),         // addu $3, $1, $2
            r(0x23, 2, 1, 4, 0),         // subu $4, $2, $1
            r(0x25, 1, 2, 5, 0),         // or $5, $1, $2
            r(0x24, 1, 2, 6, 0),         // and $6, $1, $2
            r(0x2A, 2, 1, 7, 0),         // slt $7, $2, $1
            r(0x00, 0, 2, 8, 4),         // sll $8, $2, 4
            i(0x09, 0, 9, 0xFFF0),       // addiu $9, $0, -16
            r(0x03, 0, 9, 10, 2),        // sra $10, $9, 2
            r(0x02, 0, 9, 11, 28),       // srl $11, $9, 28
            i(0x0F, 0, 12, 0x1234),      // lui $12, 0x1234
            i(0x0D, 12, 12, 0x5678),     // ori $12, $12, 0x5678
            i(0x09, 0, 0, 9),            // addiu $0, $0, 9 (no effect)
        ],
        1,
    );
    assert_eq!(cpu.gpr[3], 12);
    assert_eq!(cpu.gpr[4], 2);
    assert_eq!(cpu.gpr[5], 7);
    assert_eq!(cpu.gpr[6], 5);
    assert_eq!(cpu.gpr[7], 0);
    assert_eq!(cpu.gpr[8], 112);
    assert_eq!(cpu.gpr[10], 0xFFFF_FFFC);
    assert_eq!(cpu.gpr[11], 0xF);
    assert_eq!(cpu.gpr[12], 0x1234_5678);
    assert_eq!(cpu.gpr[0], 0);
}

#[test]
fn interpreter_load_delay_slot() {
    let (cpu, bus) = run_program(
        &[
            i(0x09, 0, 1, 0x1000),       // addiu $1, $0, 0x1000
            i(0x09, 0, 2, 99),           // addiu $2, $0, 99
            i(0x2B, 1, 2, 0),            // sw $2, 0($1)
            i(0x09, 0, 3, 1),            // addiu $3, $0, 1
            i(0x23, 1, 3, 0),            // lw $3, 0($1)
            r(0x21, 3, 0, 4, 0),         // addu $4, $3, $0  (old $3)
            r(0x21, 3, 0, 5, 0),         // addu $5, $3, $0  (loaded $3)
        ],
        1,
    );
    assert_eq!(&bus.ram[0x1000..0x1004], &99u32.to_le_bytes());
    assert_eq!(cpu.gpr[4], 1);
    assert_eq!(cpu.gpr[5], 99);
    assert_eq!(cpu.gpr[3], 99);
}

#[test]
fn interpreter_delayed_load_wins_over_next_write() {
    let (cpu, _) = run_program(
        &[
            i(0x09, 0, 1, 0x1000),       // addiu $1, $0, 0x1000
            i(0x09, 0, 2, 42),           // addiu $2, $0, 42
            i(0x2B, 1, 2, 0),            // sw $2, 0($1)
            i(0x23, 1, 3, 0),            // lw $3, 0($1)
            i(0x09, 0, 3, 7),            // addiu $3, $0, 7 (in the load delay slot)
            r(0x21, 3, 0, 4, 0),         // addu $4, $3, $0
        ],
        1,
    );
    assert_eq!(cpu.gpr[3], 42);
    assert_eq!(cpu.gpr[4], 42);
}

#[test]
fn interpreter_narrow_loads_and_stores() {
    let (cpu, bus) = run_program(
        &[
            i(0x0F, 0, 1, 0x8000),       // lui $1, 0x8000
            i(0x0D, 1, 1, 0x2000),       // ori $1, $1, 0x2000 (KSEG0 mirror of 0x2000)
            i(0x09, 0, 2, 0xFF80),       // addiu $2, $0, -128
            i(0x28, 1, 2, 1),            // sb $2, 1($1)
            i(0x29, 1, 2, 2),            // sh $2, 2($1)
            i(0x24, 1, 3, 1),            // lbu $3, 1($1)
            i(0x20, 1, 4, 2),            // lb $4, 2($1)
            i(0x25, 1, 5, 2),            // lhu $5, 2($1)
            i(0x21, 1, 6, 2),            // lh $6, 2($1)
            i(0x20, 1, 7, 0),            // lb $7, 0($1)
            NOP,
        ],
        1,
    );
    assert_eq!(&bus.ram[0x2000..0x2004], &[0x00, 0x80, 0x80, 0xFF]);
    assert_eq!(cpu.gpr[3], 0x80);
    // Signed loads sign-extend, unsigned ones zero-extend.
    assert_eq!(cpu.gpr[4], 0xFFFF_FF80);
    assert_eq!(cpu.gpr[5], 0xFF80);
    assert_eq!(cpu.gpr[6], 0xFFFF_FF80);
    assert_eq!(cpu.gpr[7], 0);
}

#[test]
fn interpreter_branch_taken_runs_delay_slot() {
    let (cpu, _) = run_program(
        &[
            i(0x04, 0, 0, 2),            // beq $0, $0, +2
            i(0x09, 0, 1, 11),           // addiu $1, $0, 11 (delay slot)
            i(0x09, 0, 2, 22),           // skipped
            i(0x09, 0, 3, 33),           // target
        ],
        2,
    );
    assert_eq!(cpu.gpr[1], 11);
    assert_eq!(cpu.gpr[2], 0);
    assert_eq!(cpu.gpr[3], 33);
}

#[test]
fn interpreter_branch_not_taken() {
    let (cpu, _) = run_program(
        &[
            i(0x05, 0, 0, 2),            // bne $0, $0, +2
            i(0x09, 0, 1, 11),
            i(0x09, 0, 2, 22),
            i(0x09, 0, 3, 33),
        ],
        2,
    );
    assert_eq!(cpu.gpr[1], 11);
    assert_eq!(cpu.gpr[2], 22);
    assert_eq!(cpu.gpr[3], 33);
}

#[test]
fn interpreter_jal_and_jr_return() {
    let (cpu, _) = run_program(
        &[
            (0x03 << 26) | 4,            // 0x00: jal 0x10
            i(0x09, 0, 1, 10),           // 0x04: delay slot
            i(0x09, 0, 2, 12),           // 0x08: after return
            0x0000_000D,                 // 0x0C: break
            i(0x09, 0, 3, 13),           // 0x10: callee
            r(0x08, 31, 0, 0, 0),        // 0x14: jr $ra
            NOP,                         // 0x18: delay slot
        ],
        3,
    );
    assert_eq!(cpu.gpr[31], 8);
    assert_eq!(cpu.gpr[1], 10);
    assert_eq!(cpu.gpr[3], 13);
    assert_eq!(cpu.gpr[2], 12);
}

#[test]
fn interpreter_overflow_exception_keeps_destination() {
    let (cpu, _) = run_program(
        &[
            i(0x0F, 0, 1, 0x7FFF),       // lui $1, 0x7FFF
            i(0x0D, 1, 1, 0xFFFF),       // ori $1, $1, 0xFFFF
            i(0x09, 0, 2, 7),            // addiu $2, $0, 7
            r(0x20, 1, 1, 2, 0),         // add $2, $1, $1 (overflow)
        ],
        1,
    );
    assert_eq!(cpu.cop0.cause().excode(), 0x0C);
    assert_eq!(cpu.cop0.regs[EPC_IDX], 12);
    assert_eq!(cpu.gpr[2], 7);
    assert_eq!(cpu.pc, 0xBFC0_0180);
}

#[test]
fn interpreter_syscall_and_break_exceptions() {
    let (cpu, _) = run_program(&[NOP, 0x0000_000C], 1);
    assert_eq!(cpu.cop0.cause().excode(), 0x08);
    assert_eq!(cpu.cop0.regs[EPC_IDX], 4);

    let (cpu, _) = run_program(&[0x0000_000D], 1);
    assert_eq!(cpu.cop0.cause().excode(), 0x09);
    assert_eq!(cpu.cop0.regs[EPC_IDX], 0);
}

#[test]
fn interpreter_reserved_instruction_exception() {
    let (cpu, _) = run_program(&[i(0x09, 0, 10, 1), 0xFFFF_FFFF], 1);
    assert_eq!(cpu.cop0.cause().excode(), 0x0A);
    assert_eq!(cpu.gpr[10], 1);
}

#[test]
fn interpreter_unaligned_accesses_raise() {
    let (cpu, _) = run_program(&[i(0x09, 0, 1, 0x1002), i(0x23, 1, 2, 0)], 1);
    assert_eq!(cpu.cop0.cause().excode(), 0x04);
    assert_eq!(cpu.cop0.regs[BAD_VADDR_IDX], 0x1002);
    assert_eq!(cpu.cop0.regs[EPC_IDX], 4);

    let (cpu, _) = run_program(&[i(0x09, 0, 1, 0x1001), i(0x2B, 1, 2, 0)], 1);
    assert_eq!(cpu.cop0.cause().excode(), 0x05);
    assert_eq!(cpu.cop0.regs[BAD_VADDR_IDX], 0x1001);
}

#[test]
fn interpreter_exception_in_delay_slot_sets_bd() {
    let (cpu, _) = run_program(
        &[
            i(0x04, 0, 0, 4),            // beq $0, $0, +4
            0x0000_000C,                 // syscall in the delay slot
        ],
        1,
    );
    assert_eq!(cpu.cop0.cause().excode(), 0x08);
    assert!(cpu.cop0.cause().bd());
    assert_eq!(cpu.cop0.regs[EPC_IDX], 0);
}

#[test]
fn interpreter_mult_div_and_hi_lo() {
    let (cpu, _) = run_program(
        &[
            i(0x09, 0, 1, 0xFFF9),       // addiu $1, $0, -7
            i(0x09, 0, 2, 2),            // addiu $2, $0, 2
            r(0x1A, 1, 2, 0, 0),         // div $1, $2
            r(0x10, 0, 0, 3, 0),         // mfhi $3
            r(0x12, 0, 0, 4, 0),         // mflo $4
            r(0x18, 1, 2, 0, 0),         // mult $1, $2
            r(0x10, 0, 0, 5, 0),         // mfhi $5
            r(0x12, 0, 0, 6, 0),         // mflo $6
            r(0x1B, 2, 0, 0, 0),         // divu $2, $0 (by zero)
            r(0x10, 0, 0, 7, 0),         // mfhi $7
            r(0x12, 0, 0, 8, 0),         // mflo $8
        ],
        1,
    );
    assert_eq!(cpu.gpr[3], 0xFFFF_FFFF);
    assert_eq!(cpu.gpr[4], 0xFFFF_FFFD);
    assert_eq!(cpu.gpr[5], 0xFFFF_FFFF);
    assert_eq!(cpu.gpr[6], 0xFFFF_FFF2);
    assert_eq!(cpu.gpr[7], 2);
    assert_eq!(cpu.gpr[8], 0);
}

#[test]
fn interpreter_cop0_moves_and_rfe() {
    let (cpu, _) = run_program(
        &[
            i(0x09, 0, 1, 0x0F),         // addiu $1, $0, 0xF
            (0x10 << 26) | (4 << 21) | (1 << 16) | (12 << 11), // mtc0 $1, $12
            (0x10 << 26) | (0 << 21) | (2 << 16) | (12 << 11), // mfc0 $2, $12
            NOP,
            (0x10 << 26) | (1 << 25) | 0x10, // rfe
        ],
        1,
    );
    assert_eq!(cpu.gpr[2], 0x0F);
    assert_eq!(cpu.cop0.regs[STATUS_IDX] & 0x3F, 0x03);
}

#[test]
fn interpreter_branch_and_link_tests_the_link_register_after_writing_it() {
    let (cpu, _) = run_program(
        &[
            i(0x0F, 0, 31, 0x8000),      // lui $31, 0x8000 (negative)
            i(0x01, 31, 0x10, 3),        // bltzal $31, +3 (tests the new $31)
            i(0x09, 0, 2, 1),            // addiu $2, $0, 1 (delay slot)
            i(0x09, 0, 3, 1),            // addiu $3, $0, 1 (not taken)
            NOP,
            NOP,
        ],
        3,
    );
    assert_eq!(cpu.gpr[31], 0x0C);
    assert_eq!(cpu.gpr[2], 1);
    assert_eq!(cpu.gpr[3], 1);
}
