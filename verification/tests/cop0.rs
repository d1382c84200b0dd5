use playastation::cpu::cop0::{
    Cop0, Exception, BAD_VADDR_IDX, CAUSE_IDX, EPC_IDX, STATUS_IDX,
};

#[test]
fn default_boots_with_rom_vectors() {
    let cop0 = Cop0::default();
    assert_eq!(cop0.regs[STATUS_IDX], 0x0040_0000);
    assert!(cop0.status().bev());
    assert_eq!(cop0.exception_handler(), 0xBFC0_0180);
}

#[test]
fn enter_then_leave_restores_mode_bits() {
    let mut cop0 = Cop0::default();
    cop0.regs[STATUS_IDX] = 0x0000_040D;
    cop0.exception_enter(Exception::DataBus { bad_vaddr: 0x1234 }, 0x100, false);

    assert_eq!(cop0.regs[STATUS_IDX], 0x0000_0434);
    assert!(!cop0.status().iec());
    assert!(!cop0.interrupt_pending());
    assert_eq!(cop0.regs[EPC_IDX], 0x100);
    assert_eq!(cop0.regs[BAD_VADDR_IDX], 0x1234);
    assert_eq!(cop0.cause().excode(), 0x07);
    assert!(!cop0.cause().bd());
    assert_eq!(cop0.exception_handler(), 0x8000_0080);

    cop0.exception_leave();
    assert_eq!(cop0.regs[STATUS_IDX] & !0x30, 0x0000_040D & !0x30);
    assert_eq!(cop0.regs[STATUS_IDX], 0x0000_043D);
}

#[test]
fn enter_in_delay_slot_points_at_branch() {
    let mut cop0 = Cop0::default();
    cop0.exception_enter(Exception::Overflow, 0x204, true);
    assert_eq!(cop0.regs[EPC_IDX], 0x200);
    assert!(cop0.cause().bd());
    assert_eq!(cop0.cause().excode(), 0x0C);
    // No address for this exception.
    assert_eq!(cop0.regs[BAD_VADDR_IDX], 0);
}

#[test]
fn exception_codes() {
    let codes = [
        (Exception::Interrupt, 0x00),
        (Exception::UnalignedLoad { bad_vaddr: 1 }, 0x04),
        (Exception::UnalignedStore { bad_vaddr: 1 }, 0x05),
        (Exception::InstructionBus { bad_vaddr: 1 }, 0x06),
        (Exception::DataBus { bad_vaddr: 1 }, 0x07),
        (Exception::Syscall, 0x08),
        (Exception::Break, 0x09),
        (Exception::ReservedInstruction, 0x0A),
        (Exception::Overflow, 0x0C),
    ];
    for (e, code) in codes {
        assert_eq!(e.discriminant(), code);
    }
}

#[test]
fn hw_irq_lane_drives_pending() {
    let mut cop0 = Cop0::default();
    cop0.regs[STATUS_IDX] = 0x0000_0401;
    assert!(!cop0.interrupt_pending());
    cop0.set_hw_irq(true);
    assert_eq!(cop0.regs[CAUSE_IDX], 0x400);
    assert!(cop0.interrupt_pending());
    cop0.set_hw_irq(false);
    assert_eq!(cop0.regs[CAUSE_IDX], 0);
    assert!(!cop0.interrupt_pending());

    // Masked lane: not pending.
    cop0.regs[STATUS_IDX] = 0x0000_0001;
    cop0.set_hw_irq(true);
    assert!(!cop0.interrupt_pending());
}
