use playastation::devices::dma::{
    Bcr, Chcr, Direction, DmaController, Dpcr, Step, SyncMode,
};
use playastation::devices::Mmio;

fn write(ctrl: &mut DmaController, addr: u32, val: u32) {
    ctrl.write(addr, val.to_le_bytes().as_slice());
}

fn read(ctrl: &mut DmaController, addr: u32) -> u32 {
    let mut buf = [0; 4];
    ctrl.read(&mut buf, addr);
    u32::from_le_bytes(buf)
}

#[test]
fn mod_verify_default() {
    let dpcr = Dpcr::default();
    let reg = dpcr.bits;

    assert_eq!(reg, 0x07654321);
}

#[test]
fn mod_verify_bios_seq() {
    let mut ctrl = DmaController::default();

    write(&mut ctrl, 0x70, 0x076f4321);
    assert!(ctrl.dpcr.enabled(4));
    assert_eq!(ctrl.dpcr.priority(4), 7);

    write(&mut ctrl, 0x74, 0);
    write(&mut ctrl, 0x74, 0x4840000);

    write(&mut ctrl, 0x28, 0x401);
    assert_eq!(
        ctrl.channels[2].chcr,
        Chcr::new()
            .with_sync_mode(SyncMode::LinkedList)
            .with_direction(Direction::FromRam)
    );

    write(&mut ctrl, 0x70, 0xf6f4321);

    write(&mut ctrl, 0x60, 0x800eb8d4);
    assert_eq!(ctrl.channels[6].madr, 0x800eb8d4);

    write(&mut ctrl, 0x64, 0x00000400);
    assert_eq!(ctrl.channels[6].bcr, Bcr::new().with_word_count(1024));

    write(&mut ctrl, 0x68, 0x11000002);
    assert_eq!(
        ctrl.channels[6].chcr,
        Chcr::new()
            .with_sync_mode(SyncMode::Manual)
            .with_direction(Direction::ToRam)
            .with_step(Step::Decrement)
            .with_active(true)
            .with_trigger(true)
    );
}

#[test]
fn dicr_write_acknowledges_flags_and_recomputes_signal() {
    let mut ctrl = DmaController::default();

    // Master enable and lane 2 enabled, lanes 2 and 3 pending.
    ctrl.dicr.bits = 0x0C00_0000;
    write(&mut ctrl, 0x74, 0x0084_0000);
    assert_eq!(read(&mut ctrl, 0x74), 0x8C84_0000);

    // Acknowledge lane 2: the signal drops, lane 3 stays pending.
    write(&mut ctrl, 0x74, 0x0484_0000);
    assert_eq!(read(&mut ctrl, 0x74), 0x0884_0000);
    assert!(!ctrl.dicr.irq_signal());
    assert_eq!(ctrl.dicr.irq_flags(), 0x08);

    // A written signal bit is ignored; force raises it.
    write(&mut ctrl, 0x74, 0x8000_8000);
    assert!(ctrl.dicr.irq_signal());
    assert!(ctrl.dicr.force_irq());
}

#[test]
fn dicr_set_irq_lane_raises_signal_when_enabled() {
    let mut ctrl = DmaController::default();
    write(&mut ctrl, 0x74, 0x0081_0000);
    ctrl.dicr.set_irq_lane(0);
    assert!(ctrl.dicr.irq_signal());
    ctrl.dicr.set_irq_lane(1);
    assert_eq!(ctrl.dicr.irq_flags(), 0x03);
}

#[test]
fn channel_registers_read_back() {
    let mut ctrl = DmaController::default();
    write(&mut ctrl, 0x00, 0x1234_5678);
    write(&mut ctrl, 0x14, 0x0010_0020);
    assert_eq!(read(&mut ctrl, 0x00), 0x1234_5678);
    assert_eq!(read(&mut ctrl, 0x14), 0x0010_0020);
    assert_eq!(ctrl.channels[1].bcr.word_count(), 0x20);
    assert_eq!(ctrl.channels[1].bcr.block_count(), 0x10);
    assert_eq!(read(&mut ctrl, 0x70), 0x0765_4321);
}

#[test]
fn register_writes_read_back_and_leave_the_others() {
    let mut ctrl = DmaController::default();
    write(&mut ctrl, 0x00, 0x0000_1000);
    write(&mut ctrl, 0x68, 0x1100_0002);
    write(&mut ctrl, 0x70, 0x0F65_4B21);
    assert_eq!(read(&mut ctrl, 0x68), 0x1100_0002);
    assert_eq!(read(&mut ctrl, 0x70), 0x0F65_4B21);
    assert_eq!(read(&mut ctrl, 0x00), 0x0000_1000);
    assert_eq!(read(&mut ctrl, 0x60), 0);
    assert_eq!(read(&mut ctrl, 0x64), 0);
}
