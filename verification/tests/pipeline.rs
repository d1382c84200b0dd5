use playastation::cpu::pipeline::State;
use playastation::cpu::{Cpu, Exception};
use playastation::interconnect::Bus;

fn r(funct: u32, rs: u32, rt: u32, rd: u32, shamt: u32) -> u32 {
    (rs << 21) | (rt << 16) | (rd << 11) | (shamt << 6) | funct
}

fn i(op: u32, rs: u32, rt: u32, imm: u16) -> u32 {
    (op << 26) | (rs << 21) | (rt << 16) | imm as u32
}

fn load(words: &[u32]) -> Bus {
    let mut bus = Bus::default();
    for (n, w) in words.iter().enumerate() {
        bus.ram[4 * n..4 * n + 4].copy_from_slice(&w.to_le_bytes());
    }
    bus
}

#[test]
fn pipeline_forwards_results_and_takes_jumps_after_delay_slot() {
    let mut bus = load(&[
        i(0x09, 0, 1, 0x100),        // 0x00 addiu $1, $0, 0x100
        i(0x09, 1, 2, 5),            // 0x04 addiu $2, $1, 5
        i(0x2B, 1, 2, 0),            // 0x08 sw $2, 0($1)
        i(0x23, 1, 3, 0),            // 0x0C lw $3, 0($1)
        0,                           // 0x10 nop
        r(0x21, 3, 3, 4, 0),         // 0x14 addu $4, $3, $3
        0x0800_000A,                 // 0x18 j 0x28
        i(0x09, 0, 5, 1),            // 0x1C addiu $5, $0, 1 (delay slot)
        i(0x09, 0, 6, 1),            // 0x20 skipped
        i(0x09, 0, 6, 2),            // 0x24 skipped
        i(0x09, 0, 7, 7),            // 0x28 addiu $7, $0, 7
    ]);
    let mut cpu = Cpu {
        pc: 0,
        ..Default::default()
    };
    let mut state = State::default();
    for _ in 0..20 {
        assert_eq!(state.run(&mut cpu, &mut bus), Ok(()));
    }
    assert_eq!(cpu.gpr[1], 0x100);
    assert_eq!(cpu.gpr[2], 0x105);
    assert_eq!(&bus.ram[0x100..0x104], &0x105u32.to_le_bytes());
    assert_eq!(cpu.gpr[3], 0x105);
    assert_eq!(cpu.gpr[4], 0x20A);
    assert_eq!(cpu.gpr[5], 1);
    assert_eq!(cpu.gpr[6], 0);
    assert_eq!(cpu.gpr[7], 7);
}

#[test]
fn pipeline_reports_overflow_at_its_instruction() {
    let mut bus = load(&[
        i(0x0F, 0, 1, 0x7FFF),       // 0x00 lui $1, 0x7FFF
        0,
        0,
        0,
        r(0x20, 1, 1, 2, 0),         // 0x10 add $2, $1, $1
    ]);
    let mut cpu = Cpu {
        pc: 0,
        ..Default::default()
    };
    let mut state = State::default();
    let mut outcome = Ok(());
    for _ in 0..10 {
        outcome = state.run(&mut cpu, &mut bus);
        if outcome.is_err() {
            break;
        }
    }
    assert_eq!(outcome, Err((false, 0x10, Exception::Overflow)));
    assert_eq!(cpu.gpr[2], 0);
}

#[test]
fn pipeline_reports_reserved_instruction_and_syscall() {
    let mut bus = load(&[0xFFFF_FFFF]);
    let mut cpu = Cpu {
        pc: 0,
        ..Default::default()
    };
    let mut state = State::default();
    assert_eq!(state.run(&mut cpu, &mut bus), Ok(()));
    assert_eq!(
        state.run(&mut cpu, &mut bus),
        Err((false, 0, Exception::ReservedInstruction))
    );

    let mut bus = load(&[i(0x04, 0, 0, 4), 0x0000_000C]);
    let mut cpu = Cpu {
        pc: 0,
        ..Default::default()
    };
    let mut state = State::default();
    let mut outcome = Ok(());
    for _ in 0..6 {
        outcome = state.run(&mut cpu, &mut bus);
        if outcome.is_err() {
            break;
        }
    }
    // The syscall sits in the delay slot of the branch.
    assert_eq!(outcome, Err((true, 4, Exception::Syscall)));
}

#[test]
fn pipeline_interrupt_stops_fetch() {
    let mut bus = load(&[]);
    let mut cpu = Cpu {
        pc: 0x40,
        ..Default::default()
    };
    cpu.cop0.regs[12] = 0x0401;
    cpu.cop0.set_hw_irq(true);
    let mut state = State::default();
    assert_eq!(
        state.run(&mut cpu, &mut bus),
        Err((false, 0x40, Exception::Interrupt))
    );
    assert_eq!(cpu.pc, 0x40);
}
