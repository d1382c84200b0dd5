use playastation::devices::timer::TimerController;
use playastation::devices::Mmio;

fn read(ctrl: &mut TimerController, addr: u32) -> u32 {
    let mut buf = [0; 4];
    ctrl.read(&mut buf, addr);
    u32::from_le_bytes(buf)
}

fn write(ctrl: &mut TimerController, addr: u32, val: u32) {
    ctrl.write(addr, val.to_le_bytes().as_slice());
}

#[test]
fn write_mode_resets_counter_and_sets_irq_request() {
    let mut ctrl = TimerController::default();

    write(&mut ctrl, 0x0, 0x1234);
    write(&mut ctrl, 0x4, 0x0038);

    assert_eq!(ctrl.timers[0].counter, 0);
    assert!(ctrl.timers[0].mode.irq_request());
    assert!(ctrl.timers[0].mode.reset_on_target());
    assert!(ctrl.timers[0].mode.irq_on_target());
    assert!(ctrl.timers[0].mode.irq_on_overflow());
}

#[test]
fn mode_read_clears_reached_flags() {
    let mut ctrl = TimerController::default();
    ctrl.timers[1].mode.set_reached_target(true);
    ctrl.timers[1].mode.set_reached_overflow(true);

    assert_eq!(read(&mut ctrl, 0x14) & 0x1800, 0x1800);
    assert!(!ctrl.timers[1].mode.reached_target());
    assert!(!ctrl.timers[1].mode.reached_overflow());
}

#[test]
fn registers_are_repeated_for_three_timers() {
    let mut ctrl = TimerController::default();

    write(&mut ctrl, 0x20, 0x1111);
    write(&mut ctrl, 0x28, 0x2222);

    assert_eq!(read(&mut ctrl, 0x20), 0x1111);
    assert_eq!(read(&mut ctrl, 0x28), 0x2222);
}

#[test]
fn counter_write_keeps_sixteen_bits_and_other_timers() {
    let mut ctrl = TimerController::default();

    write(&mut ctrl, 0x10, 0xABCD_1234);
    assert_eq!(read(&mut ctrl, 0x10), 0x1234);
    assert_eq!(read(&mut ctrl, 0x00), 0);
    assert_eq!(read(&mut ctrl, 0x20), 0);
}

#[test]
fn mode_write_reads_back_with_request_set_and_flags_clear() {
    let mut ctrl = TimerController::default();

    write(&mut ctrl, 0x24, 0x1800);
    assert_eq!(read(&mut ctrl, 0x24), 0x0400);
}

#[test]
fn narrow_access_reaches_byte_lanes() {
    let mut ctrl = TimerController::default();

    write(&mut ctrl, 0x08, 0x1234);
    ctrl.write(0x09, &[0xAB]);
    assert_eq!(read(&mut ctrl, 0x08), 0xAB34);

    let mut half = [0u8; 2];
    ctrl.read(&mut half, 0x08);
    assert_eq!(half, [0x34, 0xAB]);
}
