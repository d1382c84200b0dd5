use playastation::cpu::jit::decoder::{DecRes, InsIter};
use playastation::cpu::Exception;
use playastation::mem::Bus;

fn make_bus(words: &[(u32, u32)]) -> Bus {
    let mut bus = Bus::default();

    words.iter().for_each(|&(addr, val)| {
        let _ = bus.store_word(addr, val);
    });

    bus
}

#[test]
fn ins_iter_stops_at_branch_after_delay_slot() {
    // beq $zero, $zero, +1
    // nop
    // nop   <- must NOT be included
    let bus = make_bus(&[
        (0x0000_0000, 0x1000_0001),
        (0x0000_0004, 0x0000_0000),
        (0x0000_0008, 0x0000_0000),
    ]);

    let mut it = InsIter::new_start_from(0x0000_0000, 16);
    let out = it.collect(&bus);

    assert_eq!(out.len(), 2);

    match &out[0] {
        DecRes::Decoded { pc, ins, op, .. } => {
            assert_eq!(*pc, 0x0000_0000);
            assert_eq!(*ins, 0x1000_0001);
            assert!(op.has_branch_delay());
        }
        _ => panic!("expected decoded branch"),
    }

    match &out[1] {
        DecRes::Decoded {
            pc,
            ins,
            in_delay_slot,
            ..
        } => {
            assert_eq!(*pc, 0x0000_0004);
            assert_eq!(*ins, 0x0000_0000);
            assert!(in_delay_slot);
        }
        _ => panic!("expected decoded delay slot"),
    }

    assert_eq!(it.pc, 0x0000_0008);
}

#[test]
fn ins_iter_stops_at_jr_after_delay_slot() {
    let bus = make_bus(&[
        (0x0000_0000, 0x03E0_0008),
        (0x0000_0004, 0x0000_0000),
        (0x0000_0008, 0x0000_0000),
    ]);

    let mut it = InsIter::new_start_from(0, 16);
    let out = it.collect(&bus);

    assert_eq!(out.len(), 2);
    match &out[0] {
        DecRes::Decoded { pc, op, .. } => {
            assert_eq!(*pc, 0);
            assert!(op.has_branch_delay());
        }
        _ => panic!("expected decoded jr"),
    }
    match &out[1] {
        DecRes::Decoded {
            pc, in_delay_slot, ..
        } => {
            assert_eq!(*pc, 4);
            assert!(in_delay_slot);
        }
        _ => panic!("expected decoded delay slot"),
    }
    assert_eq!(it.pc, 8);
}

#[test]
fn ins_iter_stops_immediately_on_syscall() {
    let bus = make_bus(&[(0x0000_0000, 0x0000_000C), (0x0000_0004, 0x0000_0000)]);

    let mut it = InsIter::new_start_from(0, 16);
    let out = it.collect(&bus);

    assert_eq!(out.len(), 1);
    match &out[0] {
        DecRes::Exception {
            pc,
            exc: Exception::Syscall,
            ..
        } => assert_eq!(*pc, 0),
        _ => panic!("expected decoded syscall"),
    }
}

#[test]
fn ins_iter_stops_immediately_on_break() {
    let bus = make_bus(&[(0x0000_0000, 0x0000_000D), (0x0000_0004, 0x0000_0000)]);

    let mut it = InsIter::new_start_from(0, 16);
    let out = it.collect(&bus);

    assert_eq!(out.len(), 1);
    match &out[0] {
        DecRes::Exception {
            pc,
            exc: Exception::Break,
            ..
        } => assert_eq!(*pc, 0),
        _ => panic!("expected decoded break"),
    }
}

#[test]
fn ins_iter_returns_reserved_instruction_exception_and_stops() {
    let bus = make_bus(&[(0x0000_0000, 0xFFFF_FFFF), (0x0000_0004, 0x0000_0000)]);

    let mut it = InsIter::new_start_from(0, 16);
    let out = it.collect(&bus);

    assert_eq!(out.len(), 1);
    assert!(matches!(
        out[0],
        DecRes::Exception {
            exc: Exception::ReservedInstruction,
            ..
        }
    ));

    // PC stays on the faulting instruction.
    assert_eq!(it.pc, 0);
}

#[test]
fn respects_size_limit_when_no_terminator() {
    let bus = make_bus(&[
        (0x0000_0000, 0x0000_0000),
        (0x0000_0004, 0x0000_0000),
        (0x0000_0008, 0x0000_0000),
    ]);

    let mut it = InsIter::new_start_from(0, 2);
    let out = it.collect(&bus);

    assert_eq!(out.len(), 2);
    match &out[0] {
        DecRes::Decoded { pc, .. } => assert_eq!(*pc, 0),
        _ => panic!("expected decoded ins 0"),
    }
    match &out[1] {
        DecRes::Decoded { pc, .. } => assert_eq!(*pc, 4),
        _ => panic!("expected decoded ins 1"),
    }
    assert_eq!(it.pc, 8);
}

#[test]
fn ins_iter_fetch_errors() {
    let bus = Bus::default();
    let mut it = InsIter::new_start_from(0x0020_0000, 4);
    assert_eq!(
        it.collect(&bus),
        vec![DecRes::Exception {
            pc: 0x0020_0000,
            in_delay_slot: false,
            exc: Exception::InstructionBus { bad_vaddr: 0x0020_0000 },
        }]
    );
    let mut it = InsIter::new_start_from(2, 4);
    assert_eq!(
        it.next(&bus),
        Some(DecRes::Exception {
            pc: 2,
            in_delay_slot: false,
            exc: Exception::UnalignedLoad { bad_vaddr: 2 },
        })
    );
    assert_eq!(it.next(&bus), None);
}
