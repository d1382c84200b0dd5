use playastation::cpu::{Cpu, Exception};
use playastation::interconnect::Bus;
use playastation::run::decoder::{decode_block, Operation};

fn make_bus(words: &[(u32, u32)]) -> Bus {
    let mut bus = Bus::default();

    words.iter().for_each(|&(addr, val)| {
        let _ = bus.store(addr, val.to_le_bytes());
    });

    bus
}

#[test]
fn decoder_stops_at_branch_after_delay_slot() {
    // beq $zero, $zero, +1
    // nop
    // nop   <- must NOT be included
    let cpu = Cpu {
        pc: 0,
        ..Default::default()
    };
    let mut bus = make_bus(&[
        (0x0000_0000, 0x1000_0001),
        (0x0000_0004, 0x0000_0000),
        (0x0000_0008, 0x0000_0000),
    ]);

    let mut out = Vec::new();
    decode_block(&mut out, &cpu, &mut bus, 1024);

    assert_eq!(out.len(), 2);

    match out[0] {
        Operation::Instruction {
            pc: 0x0000_0000,
            ins: 0x1000_0001,
            op,
            ..
        } if op.has_branch_delay() => {}
        _ => panic!("expected decoded branch"),
    }

    match out[1] {
        Operation::Instruction {
            pc: 0x0000_0004,
            in_delay_slot: true,
            ins: 0x0000_0000,
            ..
        } => {}
        _ => panic!("expected decoded delay slot"),
    }
}

#[test]
fn decoder_stops_at_jr_after_delay_slot() {
    // jr $ra
    // nop
    // nop   <- must NOT be included
    let cpu = Cpu {
        pc: 0,
        ..Default::default()
    };
    let mut bus = make_bus(&[
        (0x0000_0000, 0x03E0_0008),
        (0x0000_0004, 0x0000_0000),
        (0x0000_0008, 0x0000_0000),
    ]);

    let mut out = Vec::new();
    decode_block(&mut out, &cpu, &mut bus, 1024);

    assert_eq!(out.len(), 2);

    match out[0] {
        Operation::Instruction { pc: 0, op, .. } if op.has_branch_delay() => {}
        _ => panic!("expected decoded jr"),
    }

    match out[1] {
        Operation::Instruction {
            pc: 4,
            in_delay_slot: true,
            ..
        } => {}
        _ => panic!("expected decoded delay slot"),
    }
}

#[test]
fn decoder_stops_immediately_on_syscall() {
    // syscall
    // nop   <- must NOT be included
    let cpu = Cpu {
        pc: 0,
        ..Default::default()
    };
    let mut bus = make_bus(&[(0x0000_0000, 0x0000_000C), (0x0000_0004, 0x0000_0000)]);

    let mut out = Vec::new();
    decode_block(&mut out, &cpu, &mut bus, 1024);

    assert_eq!(out.len(), 1);

    match out[0] {
        Operation::Break {
            pc: 0,
            cause: Exception::Syscall,
            ..
        } => {}
        _ => panic!("expected decoded syscall"),
    }
}

#[test]
fn decoder_stops_immediately_on_break() {
    // break
    // nop   <- must NOT be included
    let cpu = Cpu {
        pc: 0,
        ..Default::default()
    };
    let mut bus = make_bus(&[(0x0000_0000, 0x0000_000D), (0x0000_0004, 0x0000_0000)]);

    let mut out = Vec::new();
    decode_block(&mut out, &cpu, &mut bus, 1024);

    assert_eq!(out.len(), 1);

    match out[0] {
        Operation::Break {
            pc: 0,
            cause: Exception::Break,
            ..
        } => {}
        _ => panic!("expected decoded break"),
    }
}

#[test]
fn decoder_returns_reserved_instruction_exception_and_stops() {
    // 0xFFFF_FFFF should not decode on MIPS
    let cpu = Cpu {
        pc: 0,
        ..Default::default()
    };
    let mut bus = make_bus(&[(0x0000_0000, 0xFFFF_FFFF), (0x0000_0004, 0x0000_0000)]);

    let mut out = Vec::new();
    decode_block(&mut out, &cpu, &mut bus, 1024);

    assert_eq!(out.len(), 1);
    assert!(matches!(
        out[0],
        Operation::Break {
            cause: Exception::ReservedInstruction,
            ..
        }
    ));
}

#[test]
fn decoder_respects_limit_and_keeps_delay_slot() {
    // nop, nop, j 0 (third, at the limit), nop in its delay slot
    let cpu = Cpu {
        pc: 0,
        ..Default::default()
    };
    let mut bus = make_bus(&[(0x0000_0008, 0x0800_0000)]);

    let mut out = Vec::new();
    decode_block(&mut out, &cpu, &mut bus, 2);
    assert_eq!(out.len(), 2);

    decode_block(&mut out, &cpu, &mut bus, 3);
    assert_eq!(out.len(), 4);
    assert!(matches!(
        out[3],
        Operation::Instruction {
            pc: 12,
            in_delay_slot: true,
            ..
        }
    ));
}

#[test]
fn decoder_reports_unaligned_and_unmapped_fetches() {
    let cpu = Cpu {
        pc: 2,
        ..Default::default()
    };
    let mut bus = Bus::default();
    let mut out = Vec::new();
    decode_block(&mut out, &cpu, &mut bus, 16);
    assert_eq!(
        out,
        vec![Operation::Break {
            pc: 2,
            in_delay_slot: false,
            cause: Exception::UnalignedLoad { bad_vaddr: 2 },
        }]
    );

    let cpu = Cpu {
        pc: 0xC000_0000,
        ..Default::default()
    };
    decode_block(&mut out, &cpu, &mut bus, 16);
    assert_eq!(
        out,
        vec![Operation::Break {
            pc: 0xC000_0000,
            in_delay_slot: false,
            cause: Exception::InstructionBus { bad_vaddr: 0xC000_0000 },
        }]
    );
}
