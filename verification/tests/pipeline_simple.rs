use playastation::cpu::cop0::{Cop0, STATUS_IDX};
use playastation::cpu::pipeline::simple::{Error, ErrorKind, Pipeline};
use playastation::cpu::Registers;
use playastation::mem::{self, Bus};

fn r(funct: u32, rs: u32, rt: u32, rd: u32, shamt: u32) -> u32 {
    (rs << 21) | (rt << 16) | (rd << 11) | (shamt << 6) | funct
}

fn i(op: u32, rs: u32, rt: u32, imm: u16) -> u32 {
    (op << 26) | (rs << 21) | (rt << 16) | imm as u32
}

fn load(words: &[u32]) -> Bus {
    let mut bus = Bus::default();
    for (n, w) in words.iter().enumerate() {
        bus.store_word(4 * n as u32, *w).unwrap();
    }
    bus
}

fn regs() -> Registers {
    Registers { general: [0; 32], pc: 0, hi: 0, lo: 0 }
}

/// One clock: every stage once, youngest first.
fn cycle(p: &mut Pipeline, regs: &mut Registers, cop0: &mut Cop0, bus: &mut Bus) -> Result<(), Error> {
    p.fetch(&mut regs.pc, cop0, bus)?;
    p.decode(regs, cop0)?;
    p.execute(&mut regs.pc);
    p.memory(bus)?;
    p.writeback(regs);
    Ok(())
}

#[test]
fn simple_pipeline_forwards_and_reaches_memory() {
    let mut bus = load(&[
        i(0x09, 0, 1, 5),        // 0x00 addiu $1, $0, 5
        i(0x09, 1, 2, 3),        // 0x04 addiu $2, $1, 3 (forwarded $1)
        i(0x2B, 0, 2, 0x100),    // 0x08 sw $2, 0x100($0)
        i(0x23, 0, 3, 0x100),    // 0x0C lw $3, 0x100($0)
        r(0x21, 1, 2, 4, 0),     // 0x10 addu $4, $1, $2
    ]);
    let mut p = Pipeline::default();
    let mut rg = regs();
    let mut cop0 = Cop0::default();
    for _ in 0..12 {
        assert_eq!(cycle(&mut p, &mut rg, &mut cop0, &mut bus), Ok(()));
    }
    assert_eq!(rg.general[0], 0);
    assert_eq!(rg.general[1], 5);
    assert_eq!(rg.general[2], 8);
    assert_eq!(bus.read_word(0x100), Ok(8));
    assert_eq!(rg.general[3], 8);
    assert_eq!(rg.general[4], 13);
    assert_eq!(rg.pc, 48);
}

#[test]
fn simple_pipeline_jump_keeps_delay_slot_and_drops_fetched_word() {
    let mut bus = load(&[
        0x0800_0004,             // 0x00 j 0x10
        i(0x09, 0, 5, 1),        // 0x04 addiu $5, $0, 1 (delay slot)
        i(0x09, 0, 6, 1),        // 0x08 dropped
        i(0x09, 0, 6, 2),        // 0x0C never fetched
        i(0x09, 0, 7, 7),        // 0x10 addiu $7, $0, 7
    ]);
    let mut p = Pipeline::default();
    let mut rg = regs();
    let mut cop0 = Cop0::default();
    for _ in 0..10 {
        assert_eq!(cycle(&mut p, &mut rg, &mut cop0, &mut bus), Ok(()));
    }
    assert_eq!(rg.general[5], 1);
    assert_eq!(rg.general[6], 0);
    assert_eq!(rg.general[7], 7);
}

#[test]
fn simple_pipeline_jal_links_eight_past_the_jump() {
    let mut bus = load(&[
        0,
        0x0C00_0008,             // 0x04 jal 0x20
    ]);
    let mut p = Pipeline::default();
    let mut rg = regs();
    let mut cop0 = Cop0::default();
    for _ in 0..8 {
        assert_eq!(cycle(&mut p, &mut rg, &mut cop0, &mut bus), Ok(()));
    }
    assert_eq!(rg.general[31], 0x0C);
}

#[test]
fn simple_pipeline_reports_overflow_at_its_instruction() {
    let mut bus = load(&[
        i(0x0F, 0, 1, 0x7FFF),   // 0x00 lui $1, 0x7FFF
        r(0x20, 1, 1, 2, 0),     // 0x04 add $2, $1, $1
    ]);
    let mut p = Pipeline::default();
    let mut rg = regs();
    let mut cop0 = Cop0::default();
    assert_eq!(cycle(&mut p, &mut rg, &mut cop0, &mut bus), Ok(()));
    assert_eq!(cycle(&mut p, &mut rg, &mut cop0, &mut bus), Ok(()));
    assert_eq!(
        cycle(&mut p, &mut rg, &mut cop0, &mut bus),
        Err(Error { pc: 4, kind: ErrorKind::AluOverflow })
    );
    assert_eq!(rg.general[2], 0);
}

#[test]
fn simple_pipeline_reports_invalid_break_and_syscall() {
    for (word, kind) in [
        (0xFC00_0000u32, ErrorKind::InvalidInstruction(0xFC00_0000)),
        (0x0000_000D, ErrorKind::Break),
        (0x0000_000C, ErrorKind::Syscall),
    ] {
        let mut bus = load(&[0, word]);
        let mut p = Pipeline::default();
        let mut rg = regs();
        let mut cop0 = Cop0::default();
        assert_eq!(cycle(&mut p, &mut rg, &mut cop0, &mut bus), Ok(()));
        assert_eq!(cycle(&mut p, &mut rg, &mut cop0, &mut bus), Ok(()));
        assert_eq!(cycle(&mut p, &mut rg, &mut cop0, &mut bus), Err(Error { pc: 4, kind }));
    }
}

#[test]
fn simple_pipeline_reports_load_and_fetch_faults() {
    let mut bus = load(&[
        i(0x23, 0, 3, 0x102),    // 0x00 lw $3, 0x102($0)
    ]);
    let mut p = Pipeline::default();
    let mut rg = regs();
    let mut cop0 = Cop0::default();
    let mut outcome = Ok(());
    for _ in 0..4 {
        outcome = cycle(&mut p, &mut rg, &mut cop0, &mut bus);
        if outcome.is_err() {
            break;
        }
    }
    assert_eq!(
        outcome,
        Err(Error {
            pc: 0,
            kind: ErrorKind::MemoryLoad(mem::Error { bad_vaddr: 0x102, kind: mem::ErrorKind::UnalignedAddr }),
        })
    );

    let mut p = Pipeline::default();
    let mut pc = mem::MEMSIZE as u32;
    assert_eq!(
        p.fetch(&mut pc, &Cop0::default(), &bus),
        Err(Error {
            pc: mem::MEMSIZE as u32,
            kind: ErrorKind::InsLoad(mem::Error { bad_vaddr: mem::MEMSIZE as u32, kind: mem::ErrorKind::OutOfMemory }),
        })
    );
    assert_eq!(pc, mem::MEMSIZE as u32);
}

#[test]
fn simple_pipeline_fetch_is_interrupted() {
    let bus = load(&[0]);
    let mut cop0 = Cop0::default();
    cop0.regs[STATUS_IDX] = 0x0000_0401;
    cop0.set_hw_irq(true);
    let mut p = Pipeline::default();
    let mut pc = 0x40;
    assert_eq!(p.fetch(&mut pc, &cop0, &bus), Err(Error { pc: 0x40, kind: ErrorKind::Interrupt }));
    assert_eq!(pc, 0x40);
}

#[test]
fn simple_pipeline_flush_returns_parent_jump() {
    let mut bus = load(&[
        0x0800_0010,             // 0x00 j 0x40
        0,                       // 0x04 delay slot
    ]);
    let mut p = Pipeline::default();
    let mut rg = regs();
    let mut cop0 = Cop0::default();
    // After two clocks the jump sits executed behind its decoded delay slot.
    assert_eq!(cycle(&mut p, &mut rg, &mut cop0, &mut bus), Ok(()));
    assert_eq!(cycle(&mut p, &mut rg, &mut cop0, &mut bus), Ok(()));
    p.fetch(&mut rg.pc, &cop0, &bus).unwrap();
    p.decode(&rg, &mut cop0).unwrap();
    p.execute(&mut rg.pc);
    assert_eq!(rg.pc, 0x40);
    // Stages: 0 flushed, 1 decoded delay slot, 2 executed jump.
    assert_eq!(p.flush(2), Some(0));

    let mut p = Pipeline::default();
    assert_eq!(p.flush(1), None);
}
