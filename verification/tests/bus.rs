use playastation::cpu::cop0::{EPC_IDX, STATUS_IDX};
use playastation::devices::irq::{InterruptFlags, VBLANK};
use playastation::interconnect::{Bus, BusError, BusErrorKind};
use playastation::run::interpreter::Interpreter;
use playastation::run::CpuExecutor;

#[test]
fn test_bus_interrupt_triggers_cpu_exception() {
    let mut bus = Bus::default();
    let mut executor = CpuExecutor::<Interpreter>::default();

    executor.cpu.pc = 4;
    executor.block_size = 1024;

    // Enable CPU interrupts:
    // IEc = bit 0
    // IM bit 2 = hardware IRQ lane used by cop0.set_hw_irq()
    executor.cpu.cop0.regs[STATUS_IDX] = 0x0401;

    // Make the interrupt controller pending.
    bus.int_ctrl.i_mask = InterruptFlags::from_bits(VBLANK);
    bus.int_ctrl.raise(InterruptFlags::from_bits(VBLANK));

    executor.run(&mut bus);

    assert_eq!(executor.cpu.cop0.cause().excode(), 0);
    assert!(!executor.cpu.cop0.cause().bd());
    assert_eq!(executor.cpu.cop0.regs[EPC_IDX], 0x1000);
    assert_eq!(executor.cpu.pc, 0x8000_0080);
}

#[test]
fn masked_interrupt_is_not_taken() {
    let mut bus = Bus::default();
    let mut executor = CpuExecutor::<Interpreter>::default();

    executor.cpu.pc = 0;
    executor.block_size = 4;
    // IEc set, but lane 2 masked in the coprocessor.
    executor.cpu.cop0.regs[STATUS_IDX] = 0x0001;
    bus.int_ctrl.i_mask = InterruptFlags::from_bits(VBLANK);
    bus.int_ctrl.raise(InterruptFlags::from_bits(VBLANK));

    executor.run(&mut bus);

    assert_eq!(executor.cpu.pc, 0x10);
    assert_eq!(executor.cpu.cop0.cause().ip(), 0x04);
}

#[test]
fn store_then_load_reads_back_in_every_segment() {
    let mut bus = Bus::default();
    bus.store(0x0000_1000, 0xDEAD_BEEFu32.to_le_bytes()).unwrap();

    assert_eq!(bus.load::<4>(0x0000_1000).unwrap(), 0xDEAD_BEEFu32.to_le_bytes());
    assert_eq!(bus.load::<4>(0x8000_1000).unwrap(), 0xDEAD_BEEFu32.to_le_bytes());
    assert_eq!(bus.load::<4>(0xA000_1000).unwrap(), 0xDEAD_BEEFu32.to_le_bytes());
    assert_eq!(bus.load::<2>(0x8000_1002).unwrap(), [0xAD, 0xDE]);
    assert_eq!(bus.load::<1>(0xA000_1001).unwrap(), [0xBE]);
}

#[test]
fn bus_errors() {
    let mut bus = Bus::default();

    assert_eq!(
        bus.load::<4>(0x0000_1002),
        Err(BusError {
            bad_vaddr: 0x0000_1002,
            kind: BusErrorKind::UnalignedAddr
        })
    );
    assert_eq!(
        bus.store::<2>(0x0000_1001, [1, 2]),
        Err(BusError {
            bad_vaddr: 0x0000_1001,
            kind: BusErrorKind::UnalignedAddr
        })
    );
    assert_eq!(
        bus.load::<4>(0xC000_0000),
        Err(BusError {
            bad_vaddr: 0xC000_0000,
            kind: BusErrorKind::Unmapped
        })
    );
    // Inside KSEG1 but outside every region.
    assert_eq!(
        bus.load::<4>(0xA080_0000),
        Err(BusError {
            bad_vaddr: 0xA080_0000,
            kind: BusErrorKind::Unmapped
        })
    );
}

#[test]
fn hardware_registers_read_zero_and_ignore_writes() {
    let mut bus = Bus::default();
    bus.store(0x1F80_1040, 0x1234_5678u32.to_le_bytes()).unwrap();
    assert_eq!(bus.load::<4>(0x1F80_1040).unwrap(), [0, 0, 0, 0]);
}

#[test]
fn timer_and_dma_registers_are_mapped() {
    let mut bus = Bus::default();
    bus.store(0x1F80_1108, 0x0000_0042u32.to_le_bytes()).unwrap();
    assert_eq!(bus.timer_ctrl.timers[0].target, 0x42);
    assert_eq!(bus.load::<4>(0x1F80_10F0).unwrap(), 0x0765_4321u32.to_le_bytes());
}
