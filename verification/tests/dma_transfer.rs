use playastation::devices::dma::Dpcr;
use playastation::interconnect::Bus;

fn put(bus: &mut Bus, addr: usize, word: u32) {
    bus.ram[addr..addr + 4].copy_from_slice(&word.to_le_bytes());
}

fn word(bus: &Bus, addr: usize) -> u32 {
    u32::from_le_bytes(bus.ram[addr..addr + 4].try_into().unwrap())
}

fn reg(bus: &mut Bus, addr: u32, val: u32) {
    bus.store(addr, val.to_le_bytes()).unwrap();
}

#[test]
fn otc_clears_ordering_table() {
    let mut bus = Bus::default();
    reg(&mut bus, 0x1F80_10F0, 0x0F65_4321);
    reg(&mut bus, 0x1F80_10E0, 0x0000_010C);
    reg(&mut bus, 0x1F80_10E4, 0x0000_0004);
    reg(&mut bus, 0x1F80_10E8, 0x1100_0002);

    bus.update(0);

    assert_eq!(word(&bus, 0x10C), 0x108);
    assert_eq!(word(&bus, 0x108), 0x104);
    assert_eq!(word(&bus, 0x104), 0x100);
    assert_eq!(word(&bus, 0x100), 0x00FF_FFFF);
    assert_eq!(bus.dma_ctrl.channels[6].madr, 0xFC);
    assert_eq!(bus.dma_ctrl.channels[6].bcr.word_count(), 0);
    assert_eq!(bus.dma_ctrl.channels[6].chcr.bits, 0x0000_0002);
}

#[test]
fn disabled_or_untriggered_channels_wait() {
    let mut bus = Bus::default();
    // Channel 6 not enabled in DPCR.
    reg(&mut bus, 0x1F80_10E0, 0x0000_010C);
    reg(&mut bus, 0x1F80_10E4, 0x0000_0004);
    reg(&mut bus, 0x1F80_10E8, 0x1100_0002);
    bus.update(0);
    assert_eq!(word(&bus, 0x10C), 0);
    assert_eq!(bus.dma_ctrl.channels[6].chcr.bits, 0x1100_0002);

    // Enabled, active, but not triggered.
    reg(&mut bus, 0x1F80_10F0, 0x0F65_4321);
    reg(&mut bus, 0x1F80_10E8, 0x0100_0002);
    bus.update(0);
    assert_eq!(word(&bus, 0x10C), 0);
}

#[test]
fn block_transfer_feeds_gp0() {
    let mut bus = Bus::default();
    put(&mut bus, 0x1000, 0xA000_0000);
    put(&mut bus, 0x1004, 0x0000_0000);
    put(&mut bus, 0x1008, 0x0001_0002);
    put(&mut bus, 0x100C, 0xBBBB_AAAA);
    reg(&mut bus, 0x1F80_10F0, 0x0765_4B21);
    reg(&mut bus, 0x1F80_10A0, 0x0000_1000);
    reg(&mut bus, 0x1F80_10A4, 0x0002_0002);
    reg(&mut bus, 0x1F80_10A8, 0x0100_0201);

    bus.update(0);

    assert_eq!(bus.gpu.vram[0], 0xAAAA);
    assert_eq!(bus.gpu.vram[1], 0xBBBB);
    assert_eq!(bus.dma_ctrl.channels[2].madr, 0x1010);
    assert_eq!(bus.dma_ctrl.channels[2].bcr.bits, 0);
    assert_eq!(bus.dma_ctrl.channels[2].chcr.bits, 0x0000_0201);
}

#[test]
fn linked_list_feeds_gp0_node_after_node() {
    let mut bus = Bus::default();
    put(&mut bus, 0x2000, (3 << 24) | 0x2100);
    put(&mut bus, 0x2004, 0xA000_0000);
    put(&mut bus, 0x2008, 0x0000_0005);
    put(&mut bus, 0x200C, 0x0001_0002);
    put(&mut bus, 0x2100, (1 << 24) | 0x0080_0000);
    put(&mut bus, 0x2104, 0x5555_6666);
    reg(&mut bus, 0x1F80_10F0, 0x0765_4B21);
    reg(&mut bus, 0x1F80_10A0, 0x0000_2000);
    reg(&mut bus, 0x1F80_10A8, 0x0100_0401);

    bus.update(0);

    assert_eq!(bus.gpu.vram[5], 0x6666);
    assert_eq!(bus.gpu.vram[6], 0x5555);
    assert_eq!(bus.dma_ctrl.channels[2].madr, 0x00FF_FFFF);
    assert_eq!(bus.dma_ctrl.channels[2].chcr.bits, 0x0000_0401);
}

#[test]
fn channels_are_served_by_priority() {
    let d = Dpcr { bits: 0x0765_4321 };
    let order: Vec<usize> = d.sorted_chans().iter().map(|c| c.0).collect();
    assert_eq!(order, vec![0, 1, 2, 3, 4, 5, 6]);
    assert!(d.sorted_chans().iter().all(|c| !c.1));

    // Equal priorities: the higher index first.
    let d = Dpcr { bits: 0x0000_0000 };
    let order: Vec<usize> = d.sorted_chans().iter().map(|c| c.0).collect();
    assert_eq!(order, vec![6, 5, 4, 3, 2, 1, 0]);

    let d = Dpcr { bits: 0x0F6F_4321 };
    let chans = d.sorted_chans();
    assert_eq!(chans[0], (0, false));
    assert_eq!(chans[5], (6, true));
    assert_eq!(chans[6], (4, true));
}

#[test]
fn cleared_ordering_table_walks_as_an_empty_list() {
    let mut bus = Bus::default();
    // Clear a table of four entries from 0x10C down.
    reg(&mut bus, 0x1F80_10F0, 0x0F65_4B21);
    reg(&mut bus, 0x1F80_10E0, 0x0000_010C);
    reg(&mut bus, 0x1F80_10E4, 0x0000_0004);
    reg(&mut bus, 0x1F80_10E8, 0x1100_0002);
    bus.update(0);
    assert_eq!(word(&bus, 0x100), 0x00FF_FFFF);

    // Walk it as a GPU linked list from the same address.
    let vram_before = bus.gpu.vram.clone();
    reg(&mut bus, 0x1F80_10A0, 0x0000_010C);
    reg(&mut bus, 0x1F80_10A8, 0x0100_0401);
    bus.update(0);

    assert_eq!(bus.dma_ctrl.channels[2].madr, 0x00FF_FFFF);
    assert_eq!(bus.dma_ctrl.channels[2].chcr.bits, 0x0000_0401);
    assert_eq!(bus.gpu.vram, vram_before);
}
