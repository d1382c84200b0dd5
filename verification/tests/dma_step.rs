use playastation::devices::dma::{Chcr, DmaController, Port, SyncMode};
use playastation::dma::Dma;
use playastation::interconnect::Bus;

fn reg(bus: &mut Bus, addr: u32, val: u32) {
    bus.store(addr, val.to_le_bytes()).unwrap();
}

fn word(bus: &Bus, addr: usize) -> u32 {
    u32::from_le_bytes(bus.ram[addr..addr + 4].try_into().unwrap())
}

#[test]
fn ports_map_to_channels() {
    for i in 0..7 {
        assert_eq!(Port::from_repr(i).unwrap().idx(), i);
    }
    assert_eq!(Port::from_repr(7), None);
    assert_eq!(Port::from_repr(6), Some(Port::Otc));
    assert_eq!(Port::COUNT, 7);
}

#[test]
fn pick_prefers_lower_priority_value_then_higher_index() {
    let mut ctrl = DmaController::default();
    assert_eq!(ctrl.pick_highest_prio_chan(), None);

    // Channels 2 and 6 enabled with equal priorities, both active.
    ctrl.dpcr.bits = 0x0B00_0B00;
    ctrl.channels[2].chcr = Chcr::new().with_sync_mode(SyncMode::Request).with_active(true);
    ctrl.channels[6].chcr = Chcr::new().with_sync_mode(SyncMode::Request).with_active(true);
    assert_eq!(ctrl.pick_highest_prio_chan(), Some(Port::Otc));

    // A lower value wins.
    ctrl.dpcr.bits = 0x0C00_0B00;
    assert_eq!(ctrl.pick_highest_prio_chan(), Some(Port::Gpu));

    // Word by word needs the trigger; linked lists only run on the GPU channel.
    ctrl.channels[2].chcr = Chcr::new().with_sync_mode(SyncMode::Manual).with_active(true);
    ctrl.channels[6].chcr = Chcr::new().with_sync_mode(SyncMode::LinkedList).with_active(true);
    assert_eq!(ctrl.pick_highest_prio_chan(), None);
}

#[test]
fn start_and_finish() {
    let mut ctrl = DmaController::default();
    let mut chan = ctrl.channels[0];
    chan.chcr = Chcr::new().with_sync_mode(SyncMode::Manual).with_trigger(true);
    chan.start();
    assert!(chan.chcr.active());
    assert!(!chan.chcr.trigger());
    assert!(chan.try_finish());
    assert!(!chan.chcr.active());

    chan.chcr = Chcr::new().with_sync_mode(SyncMode::LinkedList);
    chan.madr = 0x1000;
    chan.start();
    assert!(!chan.try_finish());
    assert!(chan.chcr.active());
    chan.madr = 0x00FF_FFFF;
    assert!(chan.try_finish());
    ctrl.channels[0] = chan;
}

#[test]
fn step_clears_one_table_word_at_a_time() {
    let mut bus = Bus::default();
    let mut dma = Dma::default();
    reg(&mut bus, 0x1F80_10F0, 0x0F65_4321);
    // Master enable and OTC lane enabled in DICR.
    reg(&mut bus, 0x1F80_10F4, 0x00C0_0000);
    reg(&mut bus, 0x1F80_10E0, 0x0000_0108);
    reg(&mut bus, 0x1F80_10E4, 0x0000_0003);
    reg(&mut bus, 0x1F80_10E8, 0x1100_0002);

    dma.run(&mut bus);
    assert_eq!(word(&bus, 0x108), 0x104);
    assert!(dma.working[6]);
    assert_eq!(bus.dma_ctrl.channels[6].bcr.word_count(), 2);
    // The trigger was consumed: the channel goes on as the working one.
    assert!(!bus.dma_ctrl.channels[6].chcr.trigger());

    dma.run(&mut bus);
    assert_eq!(word(&bus, 0x104), 0x100);
    dma.run(&mut bus);
    assert_eq!(word(&bus, 0x100), 0x00FF_FFFF);
    assert!(!dma.working[6]);
    assert!(!bus.dma_ctrl.channels[6].chcr.active());
    assert_eq!(bus.dma_ctrl.dicr.irq_flags(), 0x40);
    assert!(bus.dma_ctrl.dicr.irq_signal());
    assert_eq!(bus.int_ctrl.i_stat.bits, 0x8);

    // Nothing left to do.
    dma.run(&mut bus);
    assert_eq!(bus.int_ctrl.i_stat.bits, 0x8);
}

#[test]
fn step_moves_a_block() {
    let mut bus = Bus::default();
    let mut dma = Dma::default();
    reg(&mut bus, 0x1F80_10F0, 0x0765_4B21);
    reg(&mut bus, 0x1F80_10A0, 0x0000_1000);
    reg(&mut bus, 0x1F80_10A4, 0x0002_0004);
    reg(&mut bus, 0x1F80_10A8, 0x0100_0201);
    dma.run(&mut bus);
    assert_eq!(bus.dma_ctrl.channels[2].madr, 0x1010);
    assert_eq!(bus.dma_ctrl.channels[2].bcr.block_count(), 1);
    assert!(dma.working[2]);
    dma.run(&mut bus);
    assert_eq!(bus.dma_ctrl.channels[2].madr, 0x1020);
    assert!(!dma.working[2]);
    assert!(!bus.dma_ctrl.channels[2].chcr.active());
}
