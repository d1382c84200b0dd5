use vstd::prelude::*;

pub mod dma;
pub mod gpu;
pub mod irq;
pub mod timer;

verus! {

/// The four bytes of a word, least significant first.
pub open spec fn word_bytes(w: u32) -> Seq<u8> {
    seq![w as u8, (w >> 8u32) as u8, (w >> 16u32) as u8, (w >> 24u32) as u8]
}

/// The word made of four bytes, least significant first.
pub open spec fn word_of(b: Seq<u8>) -> u32 {
    (b[0] as u32) | ((b[1] as u32) << 8u32) | ((b[2] as u32) << 16u32) | ((b[3] as u32) << 24u32)
}

/// The `len` bytes of word `w` from byte `off` on.
pub open spec fn lanes(w: u32, off: u32, len: nat) -> Seq<u8> {
    word_bytes(w).subrange(off as int, off + len)
}

/// Word `w` with its bytes from `off` on replaced by `value`.
pub open spec fn merge_word(w: u32, off: u32, value: Seq<u8>) -> u32 {
    word_of(
        Seq::new(
            4,
            |i: int|
                if off <= i < off + value.len() {
                    value[i - off]
                } else {
                    word_bytes(w)[i]
                },
        ),
    )
}

/// A device whose registers are 32-bit words mapped in memory. Accesses may be
/// narrower than a word: they address byte lanes inside the word. The
/// contracts speak of the device's model (its view).
pub trait Mmio: View + Sized {
    /// Whether a read of `len` bytes at `addr` is one the device handles.
    spec fn read_defined(m: Self::V, addr: u32, len: nat) -> bool;

    /// Value of the register at word address `addr`.
    spec fn register(m: Self::V, addr: u32) -> u32;

    /// The device after its register at word address `addr` was read.
    spec fn after_read(m: Self::V, addr: u32) -> Self::V;

    /// Whether a write of the bytes `value` at `addr` is one the device handles.
    spec fn write_defined(m: Self::V, addr: u32, value: Seq<u8>) -> bool;

    /// The device after `word` was written to its register at word address `addr`.
    spec fn after_write(m: Self::V, addr: u32, word: u32) -> Self::V;

    /// Read `dest.len()` bytes of the register that holds `addr`.
    fn read(&mut self, dest: &mut [u8], addr: u32)
        requires
            Self::read_defined(old(self)@, addr, old(dest)@.len()),
        ensures
            final(dest)@ == lanes(Self::register(old(self)@, addr & !3u32), addr & 3u32, old(dest)@.len()),
            final(self)@ == Self::after_read(old(self)@, addr & !3u32),
    ;

    /// Write `value` into the register that holds `addr`, at its byte lanes;
    /// the other lanes keep the register's value.
    fn write(&mut self, addr: u32, value: &[u8])
        requires
            Self::write_defined(old(self)@, addr, value@),
        ensures
            final(self)@ == Self::after_write(
                old(self)@,
                addr & !3u32,
                merge_word(Self::register(old(self)@, addr & !3u32), addr & 3u32, value@),
            ),
    ;
}

/// Copy the byte lanes `off..off + dest.len()` of `word` into `dest`.
pub fn copy_lanes(dest: &mut [u8], word: u32, off: u32)
    requires
        off + old(dest)@.len() <= 4,
    ensures
        final(dest)@ == lanes(word, off, old(dest)@.len()),
{
    let bytes: [u8; 4] = le_bytes(word);
    let n = dest.len();
    let mut i: usize = 0;
    while i < n
        invariant
            n == dest@.len(),
            n == old(dest)@.len(),
            off + n <= 4,
            i <= n,
            bytes@ == word_bytes(word),
            forall|j: int| 0 <= j < i ==> dest@[j] == word_bytes(word)[off + j],
        decreases n - i,
    {
        dest[i] = bytes[off as usize + i];
        i = i + 1;
    }
    assert(dest@ =~= lanes(word, off, old(dest)@.len()));
}

/// Word `word` with its lanes from `off` on replaced by `value`.
pub fn merge_lanes(word: u32, off: u32, value: &[u8]) -> (r: u32)
    requires
        off + value@.len() <= 4,
    ensures
        r == merge_word(word, off, value@),
{
    let mut bytes: [u8; 4] = le_bytes(word);
    let ghost merged = Seq::new(
        4,
        |i: int|
            if off <= i < off + value@.len() {
                value@[i - off]
            } else {
                word_bytes(word)[i]
            },
    );
    let n = value.len();
    let mut i: usize = 0;
    while i < n
        invariant
            n == value@.len(),
            off + n <= 4,
            i <= n,
            bytes@.len() == 4,
            forall|j: int| 0 <= j < 4 && !(off <= j < off + i) ==> bytes@[j] == word_bytes(word)[j],
            forall|j: int| off <= j < off + i ==> bytes@[j] == value@[j - off],
        decreases n - i,
    {
        bytes[off as usize + i] = value[i];
        i = i + 1;
    }
    assert(bytes@ =~= merged);
    le_word(bytes)
}

/// The four bytes of a word, least significant first.
pub fn le_bytes(w: u32) -> (r: [u8; 4])
    ensures
        r@ == word_bytes(w),
{
    let r = [w as u8, (w >> 8u32) as u8, (w >> 16u32) as u8, (w >> 24u32) as u8];
    assert(r@ =~= word_bytes(w));
    r
}

/// The word made of four bytes, least significant first.
pub fn le_word(b: [u8; 4]) -> (r: u32)
    ensures
        r == word_of(b@),
{
    (b[0] as u32) | ((b[1] as u32) << 8u32) | ((b[2] as u32) << 16u32) | ((b[3] as u32) << 24u32)
}


/// The word made of the bytes of a word is that word.
pub proof fn lemma_word_round_trip(w: u32)
    ensures
        word_of(word_bytes(w)) == w,
{
    assert((w as u8 as u32) | (((w >> 8u32) as u8 as u32) << 8u32) | (((w >> 16u32) as u8 as u32)
        << 16u32) | (((w >> 24u32) as u8 as u32) << 24u32) == w) by (bit_vector);
}

} // verus!
