use vstd::prelude::*;

verus! {

/// Size of the flat memory: 2 MiB.
pub const MEMSIZE: usize = 2 * 1024 * 1024;

/// A failed memory access.
#[derive(Debug, Clone, Copy, PartialEq, Eq, Structural)]
pub struct Error {
    pub bad_vaddr: u32,
    pub kind: ErrorKind,
}

#[derive(Debug, Clone, Copy, PartialEq, Eq, Structural)]
pub enum ErrorKind {
    UnalignedAddr,
    OutOfMemory,
}

/// Flat byte-addressed storage.
pub struct Memory {
    pub storage: Vec<u8>,
}

/// A simple bus: one flat memory from address 0 on, no devices.
pub struct Bus {
    pub mem: Memory,
}

impl Default for Memory {
    /// `MEMSIZE` zero bytes.
    fn default() -> (r: Self)
        ensures
            r.storage@ == Seq::new(MEMSIZE as nat, |i: int| 0u8),
    {
        let storage = vec![0u8; MEMSIZE];
        proof {
            assert(storage@ =~= Seq::new(MEMSIZE as nat, |i: int| 0u8));
        }
        Memory { storage }
    }
}

impl Default for Bus {
    fn default() -> (r: Self)
        ensures
            r.mem.storage@ == Seq::new(MEMSIZE as nat, |i: int| 0u8),
    {
        Bus { mem: Memory::default() }
    }
}

/// The result of an access of `n` bytes at `addr` in a memory of `len` bytes:
/// misaligned, out of the memory, or fine.
pub open spec fn access(addr: u32, n: nat, len: nat) -> Result<(), Error> {
    if addr as int % n as int != 0 {
        Err(Error { bad_vaddr: addr, kind: ErrorKind::UnalignedAddr })
    } else if addr + n > len {
        Err(Error { bad_vaddr: addr, kind: ErrorKind::OutOfMemory })
    } else {
        Ok(())
    }
}

/// The memory with `value` written from `addr` on.
pub open spec fn written(m: Seq<u8>, addr: int, value: Seq<u8>) -> Seq<u8> {
    Seq::new(m.len(), |i: int| if addr <= i < addr + value.len() { value[i - addr] } else { m[i] })
}

impl Bus {
    pub open spec fn bytes(&self) -> Seq<u8> {
        self.mem.storage@
    }

    /// Read the byte at `addr`.
    pub fn read_byte(&self, addr: u32) -> (r: Result<u8, Error>)
        ensures
            r == (match access(addr, 1, self.bytes().len()) {
                Ok(()) => Ok(self.bytes()[addr as int]),
                Err(e) => Err(e),
            }),
    {
        if (addr as usize) < self.mem.storage.len() {
            Ok(self.mem.storage[addr as usize])
        } else {
            Err(Error { bad_vaddr: addr, kind: ErrorKind::OutOfMemory })
        }
    }

    /// Read the half word at `addr` (little endian).
    pub fn read_half(&self, addr: u32) -> (r: Result<u16, Error>)
        requires
            addr % 2 == 0 ==> addr + 2 <= u32::MAX,
        ensures
            r == (match access(addr, 2, self.bytes().len()) {
                Ok(()) => Ok(
                    (self.bytes()[addr as int] as u16) | ((self.bytes()[addr + 1] as u16) << 8u16),
                ),
                Err(e) => Err(e),
            }),
    {
        if addr % 2 != 0 {
            return Err(Error { bad_vaddr: addr, kind: ErrorKind::UnalignedAddr });
        }
        let end = (addr + 2) as usize;
        if end > self.mem.storage.len() {
            return Err(Error { bad_vaddr: addr, kind: ErrorKind::OutOfMemory });
        }
        let a = addr as usize;
        Ok((self.mem.storage[a] as u16) | ((self.mem.storage[a + 1] as u16) << 8u16))
    }

    /// Read the word at `addr` (little endian).
    pub fn read_word(&self, addr: u32) -> (r: Result<u32, Error>)
        requires
            addr % 4 == 0 ==> addr + 4 <= u32::MAX,
        ensures
            r == (match access(addr, 4, self.bytes().len()) {
                Ok(()) => Ok(crate::devices::word_of(self.bytes().subrange(addr as int, addr + 4))),
                Err(e) => Err(e),
            }),
    {
        if addr % 4 != 0 {
            return Err(Error { bad_vaddr: addr, kind: ErrorKind::UnalignedAddr });
        }
        let end = (addr + 4) as usize;
        if end > self.mem.storage.len() {
            return Err(Error { bad_vaddr: addr, kind: ErrorKind::OutOfMemory });
        }
        let a = addr as usize;
        Ok(crate::devices::le_word(
            [self.mem.storage[a], self.mem.storage[a + 1], self.mem.storage[a + 2], self.mem.storage[a + 3]],
        ))
    }

    /// Write the byte `value` at `addr`.
    pub fn store_byte(&mut self, addr: u32, value: u8) -> (r: Result<(), Error>)
        ensures
            r == access(addr, 1, old(self).bytes().len()),
            final(self).bytes() == (if r is Ok {
                written(old(self).bytes(), addr as int, seq![value])
            } else {
                old(self).bytes()
            }),
    {
        if (addr as usize) < self.mem.storage.len() {
            self.mem.storage.set(addr as usize, value);
            proof {
                assert(self.bytes() =~= written(old(self).bytes(), addr as int, seq![value]));
            }
            Ok(())
        } else {
            Err(Error { bad_vaddr: addr, kind: ErrorKind::OutOfMemory })
        }
    }

    /// Write the half word `value` at `addr` (little endian).
    pub fn store_half(&mut self, addr: u32, value: u16) -> (r: Result<(), Error>)
        requires
            addr % 2 == 0 ==> addr + 2 <= u32::MAX,
        ensures
            r == access(addr, 2, old(self).bytes().len()),
            final(self).bytes() == (if r is Ok {
                written(old(self).bytes(), addr as int, seq![value as u8, (value >> 8u16) as u8])
            } else {
                old(self).bytes()
            }),
    {
        if addr % 2 != 0 {
            return Err(Error { bad_vaddr: addr, kind: ErrorKind::UnalignedAddr });
        }
        let end = (addr + 2) as usize;
        if end > self.mem.storage.len() {
            return Err(Error { bad_vaddr: addr, kind: ErrorKind::OutOfMemory });
        }
        let a = addr as usize;
        self.mem.storage.set(a, value as u8);
        self.mem.storage.set(a + 1, (value >> 8u16) as u8);
        proof {
            assert(self.bytes() =~= written(
                old(self).bytes(),
                addr as int,
                seq![value as u8, (value >> 8u16) as u8],
            ));
        }
        Ok(())
    }

    /// Write the word `value` at `addr` (little endian).
    pub fn store_word(&mut self, addr: u32, value: u32) -> (r: Result<(), Error>)
        requires
            addr % 4 == 0 ==> addr + 4 <= u32::MAX,
        ensures
            r == access(addr, 4, old(self).bytes().len()),
            final(self).bytes() == (if r is Ok {
                written(old(self).bytes(), addr as int, crate::devices::word_bytes(value))
            } else {
                old(self).bytes()
            }),
    {
        if addr % 4 != 0 {
            return Err(Error { bad_vaddr: addr, kind: ErrorKind::UnalignedAddr });
        }
        let end = (addr + 4) as usize;
        if end > self.mem.storage.len() {
            return Err(Error { bad_vaddr: addr, kind: ErrorKind::OutOfMemory });
        }
        let a = addr as usize;
        let bytes = crate::devices::le_bytes(value);
        self.mem.storage.set(a, bytes[0]);
        self.mem.storage.set(a + 1, bytes[1]);
        self.mem.storage.set(a + 2, bytes[2]);
        self.mem.storage.set(a + 3, bytes[3]);
        proof {
            assert(self.bytes() =~= written(old(self).bytes(), addr as int, crate::devices::word_bytes(value)));
        }
        Ok(())
    }
}

/// A word read gives back what a word store at the same address wrote.
pub proof fn law_read_after_store(m: Seq<u8>, addr: u32, value: u32)
    requires
        access(addr, 4, m.len()) is Ok,
    ensures
        crate::devices::word_of(written(m, addr as int, crate::devices::word_bytes(value)).subrange(
            addr as int,
            addr + 4,
        )) == value,
{
    let w = written(m, addr as int, crate::devices::word_bytes(value));
    assert(w.subrange(addr as int, addr + 4) =~= crate::devices::word_bytes(value));
    crate::devices::lemma_word_round_trip(value);
}

} // verus!
