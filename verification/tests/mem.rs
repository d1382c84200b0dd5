use playastation::mem::{Bus, Error, ErrorKind, Memory, MEMSIZE};

#[test]
fn memory_is_zeroed() {
    let m = Memory::default();
    assert_eq!(m.storage.len(), MEMSIZE);
    assert!(m.storage.iter().all(|b| *b == 0));
}

#[test]
fn reads_give_back_stores_little_endian() {
    let mut bus = Bus::default();
    bus.store_word(0x100, 0x1234_5678).unwrap();
    assert_eq!(bus.read_word(0x100).unwrap(), 0x1234_5678);
    assert_eq!(bus.read_half(0x100).unwrap(), 0x5678);
    assert_eq!(bus.read_half(0x102).unwrap(), 0x1234);
    assert_eq!(bus.read_byte(0x103).unwrap(), 0x12);

    bus.store_half(0x102, 0xABCD).unwrap();
    bus.store_byte(0x100, 0xEF).unwrap();
    assert_eq!(bus.read_word(0x100).unwrap(), 0xABCD_56EF);
}

#[test]
fn misaligned_and_out_of_memory_accesses_fail() {
    let mut bus = Bus::default();
    assert_eq!(
        bus.read_word(0x102),
        Err(Error { bad_vaddr: 0x102, kind: ErrorKind::UnalignedAddr })
    );
    assert_eq!(
        bus.store_half(0x101, 1),
        Err(Error { bad_vaddr: 0x101, kind: ErrorKind::UnalignedAddr })
    );
    let end = MEMSIZE as u32;
    assert_eq!(
        bus.read_byte(end),
        Err(Error { bad_vaddr: end, kind: ErrorKind::OutOfMemory })
    );
    assert_eq!(
        bus.store_word(end - 2, 0),
        Err(Error { bad_vaddr: end - 2, kind: ErrorKind::UnalignedAddr })
    );
    assert_eq!(
        bus.store_word(end, 0),
        Err(Error { bad_vaddr: end, kind: ErrorKind::OutOfMemory })
    );
    assert_eq!(bus.read_word(end - 4), Ok(0));
}
