use vstd::prelude::*;

use vstd::array::spec_array_update;

use super::{copy_lanes, merge_lanes, Mmio};
use crate::devices::gpu::gp0::fed;
use crate::interconnect::{Bus, BusModel};
use handler::{
    block_defined, block_effect, do_block, do_linked_list, do_manual, ll_defined, ll_words,
    manual_defined, manual_effect,
};

pub mod handler;

verus! {

broadcast use vstd::array::group_array_axioms;

pub const CHANNELS: usize = 7;

/// The DMA controller: seven channels, the priority register and the
/// interrupt register.
#[derive(Debug)]
pub struct DmaController {
    /// Channels.
    pub channels: [Channel; CHANNELS],
    /// Control / priority.
    pub dpcr: Dpcr,
    /// Interrupt control.
    pub dicr: Dicr,
}

#[derive(Debug, Clone, Copy, PartialEq, Eq, Structural)]
pub struct Channel {
    /// Memory address.
    pub madr: u32,
    /// Block control.
    pub bcr: Bcr,
    /// Channel control.
    pub chcr: Chcr,
}

/// Block control register: word count / block size (bits 0..16) and block count (16..32).
#[derive(Debug, Clone, Copy, PartialEq, Eq, Structural)]
pub struct Bcr {
    pub bits: u32,
}

/// Channel control register.
///
/// Bits: 0 direction, 1 step, 8 chopping, 9..11 sync mode, 16..19 chopping DMA
/// window, 20..23 chopping CPU window, 24 start/busy, 28 trigger.
#[derive(Debug, Clone, Copy, PartialEq, Eq, Structural)]
pub struct Chcr {
    pub bits: u32,
}

#[derive(Debug, Clone, Copy, PartialEq, Eq, Structural)]
pub enum Direction {
    /// Copy from a device to RAM.
    ToRam,
    /// Copy from RAM to a device.
    FromRam,
}

#[derive(Debug, Clone, Copy, PartialEq, Eq, Structural)]
pub enum Step {
    /// Address goes forward (+4).
    Increment,
    /// Address goes backward (-4).
    Decrement,
}

#[derive(Debug, Clone, Copy, PartialEq, Eq, Structural)]
pub enum SyncMode {
    /// Word-by-word transfer, with `trigger` bit.
    Manual,
    /// Block transfer, `trigger` bit isn't used.
    Request,
    /// Linked list works only with GPU (channel = 2).
    LinkedList,
    /// Unused.
    Reserved,
}

/// DMA priority control register: for channel `n`, bits `4n..4n+3` hold its
/// priority and bit `4n+3` enables it.
#[derive(Debug, Clone, Copy, PartialEq, Eq, Structural)]
pub struct Dpcr {
    pub bits: u32,
}

/// DMA interrupt register.
///
/// Bits: 15 force IRQ, 16..23 enabled lanes, 23 master enable, 24..31
/// pending lanes, 31 IRQ signal.
#[derive(Debug, Clone, Copy, PartialEq, Eq, Structural)]
pub struct Dicr {
    pub bits: u32,
}

impl Bcr {
    pub fn new() -> (r: Self)
        ensures
            r.bits == 0,
    {
        Bcr { bits: 0 }
    }

    pub open spec fn spec_word_count(self) -> u16 {
        (self.bits & 0xFFFFu32) as u16
    }

    pub open spec fn spec_block_count(self) -> u16 {
        (self.bits >> 16u32) as u16
    }

    /// Word count/block size (in words), depends on [`SyncMode`].
    #[verifier::when_used_as_spec(spec_word_count)]
    pub fn word_count(self) -> (r: u16)
        ensures
            r == self.spec_word_count(),
    {
        (self.bits & 0xFFFFu32) as u16
    }

    /// Count of blocks for [`SyncMode::Request`].
    #[verifier::when_used_as_spec(spec_block_count)]
    pub fn block_count(self) -> (r: u16)
        ensures
            r == self.spec_block_count(),
    {
        (self.bits >> 16u32) as u16
    }

    pub fn with_word_count(self, v: u16) -> (r: Self)
        ensures
            r.bits == (self.bits & 0xFFFF_0000u32) | v as u32,
    {
        Bcr { bits: (self.bits & 0xFFFF_0000u32) | v as u32 }
    }

    pub fn with_block_count(self, v: u16) -> (r: Self)
        ensures
            r.bits == (self.bits & 0xFFFFu32) | ((v as u32) << 16u32),
    {
        Bcr { bits: (self.bits & 0xFFFFu32) | ((v as u32) << 16u32) }
    }

    pub fn set_word_count(&mut self, v: u16)
        ensures
            final(self).bits == (old(self).bits & 0xFFFF_0000u32) | v as u32,
    {
        self.bits = (self.bits & 0xFFFF_0000u32) | v as u32;
    }

    pub fn set_block_count(&mut self, v: u16)
        ensures
            final(self).bits == (old(self).bits & 0xFFFFu32) | ((v as u32) << 16u32),
    {
        self.bits = (self.bits & 0xFFFFu32) | ((v as u32) << 16u32);
    }
}

pub open spec fn bit32(bits: u32, n: u32) -> bool {
    (bits >> n) & 1 != 0
}

pub open spec fn with_bit32(bits: u32, n: u32, v: bool) -> u32 {
    if v {
        bits | (1u32 << n)
    } else {
        bits & !(1u32 << n)
    }
}

pub fn set_bit(bits: u32, n: u32, v: bool) -> (r: u32)
    requires
        n < 32,
    ensures
        r == with_bit32(bits, n, v),
{
    if v {
        bits | (1u32 << n)
    } else {
        bits & !(1u32 << n)
    }
}

impl Chcr {
    pub fn new() -> (r: Self)
        ensures
            r.bits == 0,
    {
        Chcr { bits: 0 }
    }

    pub open spec fn spec_direction(self) -> Direction {
        if self.bits & 1 == 0 {
            Direction::ToRam
        } else {
            Direction::FromRam
        }
    }

    pub open spec fn spec_step(self) -> Step {
        if (self.bits >> 1u32) & 1 == 0 {
            Step::Increment
        } else {
            Step::Decrement
        }
    }

    pub open spec fn spec_sync_mode(self) -> SyncMode {
        let m = (self.bits >> 9u32) & 3;
        if m == 0 {
            SyncMode::Manual
        } else if m == 1 {
            SyncMode::Request
        } else if m == 2 {
            SyncMode::LinkedList
        } else {
            SyncMode::Reserved
        }
    }

    pub open spec fn spec_active(self) -> bool {
        bit32(self.bits, 24)
    }

    pub open spec fn spec_trigger(self) -> bool {
        bit32(self.bits, 28)
    }

    #[verifier::when_used_as_spec(spec_direction)]
    pub fn direction(self) -> (r: Direction)
        ensures
            r == self.spec_direction(),
    {
        if self.bits & 1 == 0 {
            Direction::ToRam
        } else {
            Direction::FromRam
        }
    }

    #[verifier::when_used_as_spec(spec_step)]
    pub fn step(self) -> (r: Step)
        ensures
            r == self.spec_step(),
    {
        if (self.bits >> 1u32) & 1 == 0 {
            Step::Increment
        } else {
            Step::Decrement
        }
    }

    /// Sync mode for choosing transfer type.
    #[verifier::when_used_as_spec(spec_sync_mode)]
    pub fn sync_mode(self) -> (r: SyncMode)
        ensures
            r == self.spec_sync_mode(),
    {
        let m: u32 = (self.bits >> 9u32) & 3;
        if m == 0 {
            SyncMode::Manual
        } else if m == 1 {
            SyncMode::Request
        } else if m == 2 {
            SyncMode::LinkedList
        } else {
            SyncMode::Reserved
        }
    }

    pub fn chopping_enabled(self) -> (r: bool)
        ensures
            r == bit32(self.bits, 8),
    {
        (self.bits >> 8u32) & 1 != 0
    }

    /// Start/busy.
    #[verifier::when_used_as_spec(spec_active)]
    pub fn active(self) -> (r: bool)
        ensures
            r == self.spec_active(),
    {
        (self.bits >> 24u32) & 1 != 0
    }

    /// Trigger for [`SyncMode::Manual`].
    #[verifier::when_used_as_spec(spec_trigger)]
    pub fn trigger(self) -> (r: bool)
        ensures
            r == self.spec_trigger(),
    {
        (self.bits >> 28u32) & 1 != 0
    }

    pub fn with_direction(self, d: Direction) -> (r: Self)
        ensures
            r.bits == with_bit32(self.bits, 0, d == Direction::FromRam),
    {
        Chcr { bits: set_bit(self.bits, 0, d == Direction::FromRam) }
    }

    pub fn with_step(self, s: Step) -> (r: Self)
        ensures
            r.bits == with_bit32(self.bits, 1, s == Step::Decrement),
    {
        Chcr { bits: set_bit(self.bits, 1, s == Step::Decrement) }
    }

    pub fn with_sync_mode(self, m: SyncMode) -> (r: Self)
        ensures
            r.bits == (self.bits & !0x600u32) | ((match m {
                SyncMode::Manual => 0u32,
                SyncMode::Request => 1u32,
                SyncMode::LinkedList => 2u32,
                SyncMode::Reserved => 3u32,
            }) << 9u32),
    {
        let v: u32 = match m {
            SyncMode::Manual => 0u32,
            SyncMode::Request => 1u32,
            SyncMode::LinkedList => 2u32,
            SyncMode::Reserved => 3u32,
        };
        Chcr { bits: (self.bits & !0x600u32) | (v << 9u32) }
    }

    pub fn with_active(self, v: bool) -> (r: Self)
        ensures
            r.bits == with_bit32(self.bits, 24, v),
    {
        Chcr { bits: set_bit(self.bits, 24, v) }
    }

    pub fn with_trigger(self, v: bool) -> (r: Self)
        ensures
            r.bits == with_bit32(self.bits, 28, v),
    {
        Chcr { bits: set_bit(self.bits, 28, v) }
    }

    pub fn set_active(&mut self, v: bool)
        ensures
            final(self).bits == with_bit32(old(self).bits, 24, v),
    {
        self.bits = set_bit(self.bits, 24, v);
    }

    pub fn set_trigger(&mut self, v: bool)
        ensures
            final(self).bits == with_bit32(old(self).bits, 28, v),
    {
        self.bits = set_bit(self.bits, 28, v);
    }
}

impl Dpcr {
    pub open spec fn spec_enabled(self, ch: usize) -> bool {
        bit32(self.bits, (4 * ch + 3) as u32)
    }

    pub open spec fn spec_priority(self, ch: usize) -> u8 {
        ((self.bits >> (4 * ch) as u32) & 7) as u8
    }

    /// Whether channel `ch` is enabled.
    #[verifier::when_used_as_spec(spec_enabled)]
    pub fn enabled(self, ch: usize) -> (r: bool)
        requires
            ch < CHANNELS,
        ensures
            r == self.spec_enabled(ch),
    {
        (self.bits >> (4 * ch + 3) as u32) & 1 != 0
    }

    /// Priority of channel `ch` (lower goes first).
    #[verifier::when_used_as_spec(spec_priority)]
    pub fn priority(self, ch: usize) -> (r: u8)
        requires
            ch < CHANNELS,
        ensures
            r == self.spec_priority(ch),
    {
        ((self.bits >> (4 * ch) as u32) & 7) as u8
    }
}

/// Priorities 1..7 for channels 0..6, all channels disabled.
pub const DPCR_RESET: u32 = 0x0765_4321;

impl Default for Dpcr {
    fn default() -> (r: Self)
        ensures
            r.bits == DPCR_RESET,
    {
        Dpcr { bits: DPCR_RESET }
    }
}

impl Default for Dicr {
    fn default() -> (r: Self)
        ensures
            r.bits == 0,
    {
        Dicr { bits: 0 }
    }
}

impl Default for Bcr {
    fn default() -> (r: Self)
        ensures
            r.bits == 0,
    {
        Bcr { bits: 0 }
    }
}

impl Default for Chcr {
    fn default() -> (r: Self)
        ensures
            r.bits == 0,
    {
        Chcr { bits: 0 }
    }
}

/// The IRQ signal (bit 31) that the other fields of DICR call for: forced, or
/// master-enabled with a pending lane that is enabled.
pub open spec fn dicr_signal(bits: u32) -> bool {
    bit32(bits, 15) || (bit32(bits, 23) && (((bits >> 16u32) & 0x7F) & ((bits >> 24u32) & 0x7F))
        != 0)
}

/// DICR with its signal bit recomputed.
pub open spec fn dicr_with_signal(bits: u32) -> u32 {
    with_bit32(bits, 31, dicr_signal(bits))
}

/// DICR after a CPU write of `w`: force, enabled lanes and master enable are
/// taken from `w`; a 1 in a pending lane of `w` clears that lane; the signal is
/// recomputed; bits 0..15 are kept.
pub open spec fn dicr_written(old: u32, w: u32) -> u32 {
    dicr_with_signal((old & 0x7FFFu32) | (w & 0x00FF_8000u32) | (old & !w & 0x7F00_0000u32))
}

impl Dicr {
    pub fn force_irq(self) -> (r: bool)
        ensures
            r == bit32(self.bits, 15),
    {
        (self.bits >> 15u32) & 1 != 0
    }

    pub fn irq_enabled(self) -> (r: u8)
        ensures
            r == ((self.bits >> 16u32) & 0x7F) as u8,
    {
        ((self.bits >> 16u32) & 0x7F) as u8
    }

    pub fn master_enabled(self) -> (r: bool)
        ensures
            r == bit32(self.bits, 23),
    {
        (self.bits >> 23u32) & 1 != 0
    }

    pub fn irq_flags(self) -> (r: u8)
        ensures
            r == ((self.bits >> 24u32) & 0x7F) as u8,
    {
        ((self.bits >> 24u32) & 0x7F) as u8
    }

    pub fn irq_signal(self) -> (r: bool)
        ensures
            r == bit32(self.bits, 31),
    {
        (self.bits >> 31u32) & 1 != 0
    }

    /// Recalculate the IRQ signal from the other fields.
    pub fn update_irq_signal(&mut self)
        ensures
            final(self).bits == dicr_with_signal(old(self).bits),
    {
        let b: u32 = self.bits;
        let sig = (b >> 15u32) & 1 != 0 || ((b >> 23u32) & 1 != 0 && (((b >> 16u32) & 0x7F) & ((b
            >> 24u32) & 0x7F)) != 0);
        self.bits = set_bit(b, 31, sig);
    }

    /// Mark channel `ch` as pending and recalculate the signal.
    pub fn set_irq_lane(&mut self, ch: usize)
        requires
            ch < CHANNELS,
        ensures
            final(self).bits == dicr_with_signal(old(self).bits | (1u32 << (24 + ch) as u32)),
    {
        self.bits = self.bits | (1u32 << (24 + ch) as u32);
        self.update_irq_signal();
    }
}

impl Default for DmaController {
    fn default() -> (r: Self)
        ensures
            forall|i: int| 0 <= i < 7 ==> r.channels[i].madr == 0 && r.channels[i].bcr.bits == 0
                && r.channels[i].chcr.bits == 0,
            r.dpcr.bits == DPCR_RESET,
            r.dicr.bits == 0,
    {
        let c = Channel { madr: 0, bcr: Bcr { bits: 0 }, chcr: Chcr { bits: 0 } };
        DmaController { channels: [c; CHANNELS], dpcr: Dpcr { bits: DPCR_RESET }, dicr: Dicr { bits: 0 } }
    }
}

/// Whether the word address `a` names a DMA register: MADR (+0), BCR (+4)
/// or CHCR (+8) of channel `a / 0x10`, DPCR (0x70) or DICR (0x74).
pub open spec fn dma_register(a: u32) -> bool {
    (a < 0x70 && a % 0x10 != 0xC) || a == 0x70 || a == 0x74
}

impl DmaController {
    pub open spec fn with_channel(self, i: int, c: Channel) -> DmaController {
        DmaController { channels: spec_array_update(self.channels, i, c), ..self }
    }
}

impl View for DmaController {
    type V = DmaController;

    open spec fn view(&self) -> DmaController {
        *self
    }
}

impl Mmio for DmaController {
    open spec fn read_defined(m: Self, addr: u32, len: nat) -> bool {
        dma_register(addr & !3u32) && (addr & 3u32) + len <= 4
    }

    open spec fn register(m: Self, addr: u32) -> u32 {
        if addr < 0x70 {
            let c = m.channels[(addr / 0x10) as int];
            if addr % 0x10 == 0 {
                c.madr
            } else if addr % 0x10 == 4 {
                c.bcr.bits
            } else {
                c.chcr.bits
            }
        } else if addr == 0x70 {
            m.dpcr.bits
        } else {
            m.dicr.bits
        }
    }

    open spec fn after_read(m: Self, addr: u32) -> Self {
        m
    }

    open spec fn write_defined(m: Self, addr: u32, value: Seq<u8>) -> bool {
        dma_register(addr & !3u32) && (addr & 3u32) + value.len() <= 4
    }

    open spec fn after_write(m: Self, addr: u32, word: u32) -> Self {
        if addr < 0x70 {
            let c = m.channels[(addr / 0x10) as int];
            let nc = if addr % 0x10 == 0 {
                Channel { madr: word, ..c }
            } else if addr % 0x10 == 4 {
                Channel { bcr: Bcr { bits: word }, ..c }
            } else {
                Channel { chcr: Chcr { bits: word }, ..c }
            };
            m.with_channel((addr / 0x10) as int, nc)
        } else if addr == 0x70 {
            DmaController { dpcr: Dpcr { bits: word }, ..m }
        } else {
            DmaController { dicr: Dicr { bits: dicr_written(m.dicr.bits, word) }, ..m }
        }
    }

    fn read(&mut self, dest: &mut [u8], addr: u32) {
        let a: u32 = addr & !3u32;
        let val = self.register_value(a);
        copy_lanes(dest, val, addr & 3u32);
    }

    fn write(&mut self, addr: u32, value: &[u8]) {
        let a: u32 = addr & !3u32;
        let current = self.register_value(a);
        let val: u32 = merge_lanes(current, addr & 3u32, value);
        if a < 0x70 {
            let chan: usize = (a / 0x10) as usize;
            let reg: u32 = a % 0x10;
            if reg == 0 {
                self.channels[chan].madr = val;
            } else if reg == 4 {
                self.channels[chan].bcr = Bcr { bits: val };
            } else {
                self.channels[chan].chcr = Chcr { bits: val };
            }
            proof {
                assert(self.channels =~= Self::after_write(*old(self), a, val).channels);
            }
        } else if a == 0x70 {
            self.dpcr = Dpcr { bits: val };
        } else {
            let old_bits: u32 = self.dicr.bits;
            // A 1 written to a pending lane clears it
            self.dicr = Dicr {
                bits: (old_bits & 0x7FFFu32) | (val & 0x00FF_8000u32) | (old_bits & !val
                    & 0x7F00_0000u32),
            };
            // Recalculate the signal bit, rather than copy it
            self.dicr.update_irq_signal();
        }
    }
}

impl DmaController {
    /// Value of the register at word address `a`.
    fn register_value(&self, a: u32) -> (r: u32)
        requires
            dma_register(a),
        ensures
            r == Self::register(*self, a),
    {
        if a < 0x70 {
            let chan: usize = (a / 0x10) as usize;
            let reg: u32 = a % 0x10;
            if reg == 0 {
                self.channels[chan].madr
            } else if reg == 4 {
                self.channels[chan].bcr.bits
            } else {
                self.channels[chan].chcr.bits
            }
        } else if a == 0x70 {
            self.dpcr.bits
        } else {
            self.dicr.bits
        }
    }
}


/// After any CPU write to DICR its signal bit is the one the other fields call
/// for (a written bit 31 is ignored); force, the enabled lanes and master
/// enable are the written ones; a pending lane written with 1 is acknowledged
/// (cleared) and the others stay pending.
pub proof fn law_dicr_write(cur: u32, w: u32)
    ensures
        bit32(dicr_written(cur, w), 31) == dicr_signal(dicr_written(cur, w)),
        (dicr_written(cur, w) >> 15u32) & 0x1FF == (w >> 15u32) & 0x1FF,
        (dicr_written(cur, w) >> 24u32) & 0x7F == ((cur >> 24u32) & 0x7F) & !((w >> 24u32) & 0x7F),
        dicr_written(cur, w) & 0x7FFF == cur & 0x7FFF,
{
    let y = (cur & 0x7FFFu32) | (w & 0x00FF_8000u32) | (cur & !w & 0x7F00_0000u32);
    let s = dicr_signal(y);
    assert({
        &&& bit32(with_bit32(y, 31, s), 31) == s
        &&& dicr_signal(with_bit32(y, 31, s)) == dicr_signal(y)
        &&& (with_bit32(y, 31, s) >> 15u32) & 0x1FF == (w >> 15u32) & 0x1FF
        &&& (with_bit32(y, 31, s) >> 24u32) & 0x7F == ((cur >> 24u32) & 0x7F) & !((w >> 24u32) & 0x7F)
        &&& with_bit32(y, 31, s) & 0x7FFF == cur & 0x7FFF
    }) by (bit_vector)
        requires
            y == (cur & 0x7FFFu32) | (w & 0x00FF_8000u32) | (cur & !w & 0x7F00_0000u32),
            s == dicr_signal(y),
    ;
}


/// A word written to a channel's address, block control or channel control,
/// or to DPCR, reads back as written, and every other register keeps its
/// value. (DICR is the exception: see `law_dicr_write`.)
pub proof fn law_register_read_back(m: DmaController, a: u32, word: u32, other: u32)
    requires
        dma_register(a),
        a % 4 == 0,
        a != 0x74,
        dma_register(other),
        other % 4 == 0,
        other != a,
    ensures
        DmaController::register(DmaController::after_write(m, a, word), a) == word,
        DmaController::register(DmaController::after_write(m, a, word), other)
            == DmaController::register(m, other),
{
    if a < 0x70 && other < 0x70 {
        let (i, j) = ((a / 0x10) as int, (other / 0x10) as int);
        let w = DmaController::after_write(m, a, word);
        if i == j {
            assert(a % 0x10 != other % 0x10);
        } else {
            assert(w.channels[j] == m.channels[j]);
        }
    }
}

/// Channel `a` is served before channel `b`: lower priority value first, and
/// of two equal priorities the higher index first.
pub open spec fn goes_before(d: Dpcr, a: usize, b: usize) -> bool {
    d.spec_priority(a) < d.spec_priority(b) || (d.spec_priority(a) == d.spec_priority(b) && a > b)
}

/// Channel `ch` occurs in `s`.
pub open spec fn holds_channel(s: Seq<usize>, ch: usize) -> bool {
    exists|i: int| 0 <= i < s.len() && #[trigger] s[i] == ch
}

/// `s` holds each channel once, in the order in which they are served.
pub open spec fn is_service_order(d: Dpcr, s: Seq<usize>) -> bool {
    &&& s.len() == CHANNELS
    &&& forall|i: int| 0 <= i < CHANNELS ==> #[trigger] s[i] < CHANNELS
    &&& forall|ch: usize| ch < CHANNELS ==> #[trigger] holds_channel(s, ch)
    &&& forall|i: int, j: int| 0 <= i < j < CHANNELS ==> goes_before(d, #[trigger] s[i], #[trigger] s[j])
}

/// The order in which the channels are served.
pub open spec fn service_order(d: Dpcr) -> Seq<usize> {
    choose|s: Seq<usize>| is_service_order(d, s)
}

/// Two service orders agree up to `i` (exclusive).
proof fn lemma_service_order_prefix(d: Dpcr, s1: Seq<usize>, s2: Seq<usize>, i: int)
    requires
        is_service_order(d, s1),
        is_service_order(d, s2),
        0 <= i <= CHANNELS,
    ensures
        forall|j: int| 0 <= j < i ==> s1[j] == s2[j],
    decreases i,
{
    if i > 0 {
        lemma_service_order_prefix(d, s1, s2, i - 1);
        let k = i - 1;
        let x = s2[k];
        let y = s1[k];
        assert(x < CHANNELS && y < CHANNELS);
        assert(holds_channel(s1, x) && holds_channel(s2, y));
        let p = choose|p: int| 0 <= p < CHANNELS && s1[p] == x;
        let q = choose|q: int| 0 <= q < CHANNELS && s2[q] == y;
        if p < k {
            assert(s1[p] == s2[p]);
            assert(goes_before(d, s2[p], s2[k]));
        }
        if q < k {
            assert(s2[q] == s1[q]);
            assert(goes_before(d, s1[q], s1[k]));
        }
        if p != k && q != k {
            assert(goes_before(d, s1[k], s1[p]));
            assert(goes_before(d, s2[k], s2[q]));
        }
    }
}

/// There is one service order only.
pub proof fn lemma_service_order_unique(d: Dpcr, s1: Seq<usize>, s2: Seq<usize>)
    requires
        is_service_order(d, s1),
        is_service_order(d, s2),
    ensures
        s1 == s2,
{
    lemma_service_order_prefix(d, s1, s2, CHANNELS as int);
    assert(s1 =~= s2);
}

impl Dpcr {
    /// Whether channel `a` is served before channel `b`.
    fn before(self, a: usize, b: usize) -> (r: bool)
        requires
            a < CHANNELS,
            b < CHANNELS,
        ensures
            r == goes_before(self, a, b),
    {
        let pa = self.priority(a);
        let pb = self.priority(b);
        pa < pb || (pa == pb && a > b)
    }

    /// The channels in the order in which they are served, each with its
    /// enable flag.
    pub fn sorted_chans(self) -> (r: [(usize, bool); CHANNELS])
        ensures
            is_service_order(self, Seq::new(CHANNELS as nat, |i: int| r[i].0)),
            Seq::new(CHANNELS as nat, |i: int| r[i].0) == service_order(self),
            forall|i: int| 0 <= i < CHANNELS ==> #[trigger] r[i].1 == self.spec_enabled(r[i].0),
    {
        let mut order: [usize; CHANNELS] = [0, 1, 2, 3, 4, 5, 6];
        let mut i: usize = 0;
        while i < CHANNELS
            invariant
                0 <= i <= CHANNELS,
                forall|k: int| 0 <= k < CHANNELS ==> #[trigger] order[k] < CHANNELS,
                forall|ch: usize| ch < CHANNELS ==> #[trigger] holds_channel(order@, ch),
                forall|k1: int, k2: int| 0 <= k1 < k2 < CHANNELS ==> order[k1] != order[k2],
                forall|a: int, b: int| 0 <= a < b < CHANNELS && a < i ==> goes_before(self, #[trigger] order[a], #[trigger] order[b]),
            decreases CHANNELS - i,
        {
            // Lower prio goes first, if equal then higher index go first
            let mut best: usize = i;
            let mut j: usize = i + 1;
            while j < CHANNELS
                invariant
                    i < CHANNELS,
                    i <= best < j <= CHANNELS,
                    forall|k: int| 0 <= k < CHANNELS ==> #[trigger] order[k] < CHANNELS,
                    forall|k: int| i <= k < j && k != best ==> goes_before(self, order[best as int], #[trigger] order[k]),
                    forall|k1: int, k2: int| 0 <= k1 < k2 < CHANNELS ==> order[k1] != order[k2],
                decreases CHANNELS - j,
            {
                if self.before(order[j], order[best]) {
                    best = j;
                }
                j = j + 1;
            }
            let ghost before_swap = order;
            let tmp = order[i];
            order[i] = order[best];
            order[best] = tmp;
            proof {
                assert forall|ch: usize| ch < CHANNELS implies #[trigger] holds_channel(order@, ch) by {
                    assert(holds_channel(before_swap@, ch));
                    let k0 = choose|k: int| 0 <= k < before_swap@.len() && before_swap@[k] == ch;
                    if k0 == i {
                        assert(order@[best as int] == ch);
                    } else if k0 == best {
                        assert(order@[i as int] == ch);
                    } else {
                        assert(order@[k0] == ch);
                    }
                }
            }
            i = i + 1;
        }
        let mut r: [(usize, bool); CHANNELS] = [(0, false); CHANNELS];
        let mut k: usize = 0;
        while k < CHANNELS
            invariant
                k <= CHANNELS,
                forall|m: int| 0 <= m < CHANNELS ==> #[trigger] order[m] < CHANNELS,
                forall|m: int| 0 <= m < k ==> #[trigger] r[m] == (order[m], self.spec_enabled(order[m])),
            decreases CHANNELS - k,
        {
            r[k] = (order[k], self.enabled(order[k]));
            k = k + 1;
        }
        proof {
            let s = Seq::new(CHANNELS as nat, |m: int| r[m].0);
            assert(s =~= order@);
            assert(is_service_order(self, s));
            lemma_service_order_unique(self, s, service_order(self));
        }
        r
    }
}


/// Whether channel `ch`, with enable flag `enabled`, has a transfer to run:
/// enabled, active, and triggered when it transfers word by word.
pub open spec fn channel_runs(chan: Channel, enabled: bool) -> bool {
    &&& enabled
    &&& !(chan.chcr.spec_sync_mode() == SyncMode::Manual && !chan.chcr.spec_trigger())
    &&& chan.chcr.spec_active()
}

/// The bus after the transfer of channel `ch` (if it has one to run); the
/// channel is then neither active nor triggered.
pub open spec fn served(b: BusModel, ch: usize, enabled: bool) -> BusModel {
    let chan = b.dma_ctrl.channels[ch as int];
    if !channel_runs(chan, enabled) {
        b
    } else {
        let (b1, chan1) = match chan.chcr.spec_sync_mode() {
            SyncMode::Manual => manual_effect(b, chan),
            SyncMode::Request => block_effect(b, chan),
            _ => (
                BusModel { gpu: fed(b.gpu, ll_words(b.ram, chan.madr)), ..b },
                Channel { madr: 0xFF_FFFF, ..chan },
            ),
        };
        let chcr = Chcr { bits: with_bit32(with_bit32(chan1.chcr.bits, 24, false), 28, false) };
        BusModel { dma_ctrl: b1.dma_ctrl.with_channel(ch as int, Channel { chcr, ..chan1 }), ..b1 }
    }
}

/// Whether the transfer of channel `ch` is one the handlers support.
pub open spec fn served_defined(b: BusModel, ch: usize, enabled: bool) -> bool {
    let chan = b.dma_ctrl.channels[ch as int];
    channel_runs(chan, enabled) ==> match chan.chcr.spec_sync_mode() {
        SyncMode::Manual => manual_defined(ch, chan),
        SyncMode::Request => block_defined(ch, chan, b),
        SyncMode::LinkedList => ll_defined(ch, chan, b),
        SyncMode::Reserved => false,
    }
}

/// The bus after the channels of `order` from index `i` on were served in turn.
pub open spec fn served_from(b: BusModel, order: Seq<usize>, i: nat) -> BusModel
    decreases CHANNELS - i,
{
    if i >= CHANNELS {
        b
    } else {
        let ch = order[i as int];
        served_from(served(b, ch, b.dma_ctrl.dpcr.spec_enabled(ch)), order, i + 1)
    }
}

/// Whether every transfer that the channels of `order` from index `i` on run
/// is supported.
pub open spec fn served_from_defined(b: BusModel, order: Seq<usize>, i: nat) -> bool
    decreases CHANNELS - i,
{
    i >= CHANNELS || {
        let ch = order[i as int];
        let en = b.dma_ctrl.dpcr.spec_enabled(ch);
        served_defined(b, ch, en) && served_from_defined(served(b, ch, en), order, i + 1)
    }
}

impl DmaController {
    /// Serve every channel that has a transfer to run, in the order of their
    /// priorities.
    pub fn tick(bus: &mut Bus)
        requires
            old(bus)@.wf(),
            served_from_defined(old(bus)@, service_order(old(bus)@.dma_ctrl.dpcr), 0),
        ensures
            final(bus)@.wf(),
            final(bus)@ == served_from(old(bus)@, service_order(old(bus)@.dma_ctrl.dpcr), 0),
    {
        let ghost order = service_order(bus@.dma_ctrl.dpcr);
        let ghost full = served_from(bus@, order, 0);
        let chans = bus.dma_ctrl.dpcr.sorted_chans();
        let mut i: usize = 0;
        while i < CHANNELS
            invariant
                i <= CHANNELS,
                bus@.wf(),
                bus@.dma_ctrl.dpcr == old(bus)@.dma_ctrl.dpcr,
                order == service_order(old(bus)@.dma_ctrl.dpcr),
                is_service_order(old(bus)@.dma_ctrl.dpcr, order),
                forall|k: int| 0 <= k < CHANNELS ==> #[trigger] chans[k].0 == order[k],
                forall|k: int| 0 <= k < CHANNELS ==> #[trigger] chans[k].1 == old(bus)@.dma_ctrl.dpcr.spec_enabled(chans[k].0),
                served_from_defined(bus@, order, i as nat),
                full == served_from(bus@, order, i as nat),
            decreases CHANNELS - i,
        {
            let (ch, enabled) = chans[i];
            let ghost b0 = bus@;
            proof {
                assert(order[i as int] < CHANNELS);
            }
            i = i + 1;
            let mut chan = bus.dma_ctrl.channels[ch];
            // Trigger bit must be present when sync mode is manual; non-active
            // channels are skipped at all
            if !enabled || (chan.chcr.sync_mode() == SyncMode::Manual && !chan.chcr.trigger())
                || !chan.chcr.active() {
                continue;
            }
            match chan.chcr.sync_mode() {
                SyncMode::Manual => {
                    do_manual(bus, ch, &mut chan);
                },
                SyncMode::Request => {
                    do_block(bus, ch, &mut chan);
                },
                SyncMode::LinkedList => {
                    do_linked_list(bus, ch, &mut chan);
                },
                SyncMode::Reserved => {
                    proof {
                        assert(false);
                    }
                },
            }
            chan.chcr.set_active(false);
            chan.chcr.set_trigger(false);
            bus.dma_ctrl.channels[ch] = chan;
            proof {
                assert(bus@.dma_ctrl.channels =~= served(b0, ch, enabled).dma_ctrl.channels);
                assert(bus@ == served(b0, ch, enabled));
            }
        }
    }
}


/// The devices that the channels serve, by channel index.
#[derive(Debug, Clone, Copy, PartialEq, Eq, Structural)]
pub enum Port {
    MdecIn,
    MdecOut,
    Gpu,
    CdRom,
    Spu,
    Pio,
    Otc,
}

/// The port of channel `i`, if there is one.
pub open spec fn port_of(i: usize) -> Option<Port> {
    if i == 0 {
        Some(Port::MdecIn)
    } else if i == 1 {
        Some(Port::MdecOut)
    } else if i == 2 {
        Some(Port::Gpu)
    } else if i == 3 {
        Some(Port::CdRom)
    } else if i == 4 {
        Some(Port::Spu)
    } else if i == 5 {
        Some(Port::Pio)
    } else if i == 6 {
        Some(Port::Otc)
    } else {
        None
    }
}

impl Port {
    /// Number of ports.
    pub const COUNT: usize = 7;

    pub open spec fn index(self) -> usize {
        match self {
            Port::MdecIn => 0,
            Port::MdecOut => 1,
            Port::Gpu => 2,
            Port::CdRom => 3,
            Port::Spu => 4,
            Port::Pio => 5,
            Port::Otc => 6,
        }
    }

    /// The channel index of the port.
    pub fn idx(self) -> (r: usize)
        ensures
            r == self.index(),
            r < CHANNELS,
    {
        match self {
            Port::MdecIn => 0,
            Port::MdecOut => 1,
            Port::Gpu => 2,
            Port::CdRom => 3,
            Port::Spu => 4,
            Port::Pio => 5,
            Port::Otc => 6,
        }
    }

    /// The port of channel `i`.
    pub fn from_repr(i: usize) -> (r: Option<Port>)
        ensures
            r == port_of(i),
            r matches Some(p) ==> p.index() == i,
    {
        if i == 0 {
            Some(Port::MdecIn)
        } else if i == 1 {
            Some(Port::MdecOut)
        } else if i == 2 {
            Some(Port::Gpu)
        } else if i == 3 {
            Some(Port::CdRom)
        } else if i == 4 {
            Some(Port::Spu)
        } else if i == 5 {
            Some(Port::Pio)
        } else if i == 6 {
            Some(Port::Otc)
        } else {
            None
        }
    }
}

/// The channel control after the start of a transfer: active, and the trigger
/// of a word-by-word transfer consumed.
pub open spec fn started(c: Chcr) -> Chcr {
    let a = Chcr { bits: with_bit32(c.bits, 24, true) };
    if c.spec_sync_mode() == SyncMode::Manual {
        Chcr { bits: with_bit32(a.bits, 28, false) }
    } else {
        a
    }
}

/// Whether the transfer of the channel is over: no words left (word by
/// word), no blocks left (block), the end marker reached (linked list).
pub open spec fn finished(chan: Channel) -> bool {
    match chan.chcr.spec_sync_mode() {
        SyncMode::Manual => chan.bcr.spec_word_count() == 0,
        SyncMode::Request => chan.bcr.spec_block_count() == 0,
        SyncMode::LinkedList => chan.madr == 0x00FF_FFFF,
        SyncMode::Reserved => true,
    }
}

impl Channel {
    /// Start the transfer.
    pub fn start(&mut self)
        ensures
            *final(self) == (Channel { chcr: started(old(self).chcr), ..*old(self) }),
    {
        // Setting the active bit leaves the sync mode bits alone
        let manual = self.chcr.sync_mode() == SyncMode::Manual;
        self.chcr.set_active(true);
        if manual {
            self.chcr.set_trigger(false);
        }
    }

    /// End the transfer if it is over; tell whether it is.
    pub fn try_finish(&mut self) -> (r: bool)
        ensures
            r == finished(*old(self)),
            *final(self) == (if r {
                Channel { chcr: Chcr { bits: with_bit32(old(self).chcr.bits, 24, false) }, ..*old(self) }
            } else {
                *old(self)
            }),
    {
        let finished = match self.chcr.sync_mode() {
            SyncMode::Manual => self.bcr.word_count() == 0,
            SyncMode::Request => self.bcr.block_count() == 0,
            SyncMode::LinkedList => self.madr == 0x00FF_FFFF,
            SyncMode::Reserved => true,
        };
        if finished {
            self.chcr.set_active(false);
        }
        finished
    }
}

/// Whether channel `i` has a transfer that may be picked: enabled and
/// active, triggered when word by word, and a linked list only on the GPU
/// channel.
pub open spec fn pickable(c: DmaController, i: usize) -> bool {
    let chan = c.channels[i as int];
    &&& c.dpcr.spec_enabled(i)
    &&& chan.chcr.spec_active()
    &&& !(chan.chcr.spec_sync_mode() == SyncMode::Manual && !chan.chcr.spec_trigger())
    &&& !(chan.chcr.spec_sync_mode() == SyncMode::LinkedList && i != 2)
}

/// The channel picked among channels `i..7`, `best` being the one picked so
/// far: the lowest priority value wins, and of equal ones the higher index.
pub open spec fn pick_from(c: DmaController, i: nat, best: Option<usize>) -> Option<usize>
    decreases CHANNELS - i,
{
    if i >= CHANNELS {
        best
    } else {
        let ch = i as usize;
        let best2 = if pickable(c, ch) {
            match best {
                None => Some(ch),
                Some(old) => if c.dpcr.spec_priority(ch) <= c.dpcr.spec_priority(old) {
                    Some(ch)
                } else {
                    best
                },
            }
        } else {
            best
        };
        pick_from(c, i + 1, best2)
    }
}

/// What picking from channel `i` on keeps: `best` is `None` when no channel
/// below `i` may be picked, else a channel below `i` that may be picked and
/// goes before every other such channel.
pub open spec fn picked_so_far(c: DmaController, i: nat, best: Option<usize>) -> bool {
    match best {
        None => forall|j: usize| j < i ==> !pickable(c, j),
        Some(b) => {
            &&& b < i
            &&& pickable(c, b)
            &&& forall|j: usize| j < i && j != b && #[trigger] pickable(c, j) ==> goes_before(c.dpcr, b, j)
        },
    }
}

proof fn lemma_pick_from(c: DmaController, i: nat, best: Option<usize>)
    requires
        i <= CHANNELS,
        picked_so_far(c, i, best),
    ensures
        picked_so_far(c, CHANNELS as nat, pick_from(c, i, best)),
    decreases CHANNELS - i,
{
    if i < CHANNELS {
        let ch = i as usize;
        let best2 = if pickable(c, ch) {
            match best {
                None => Some(ch),
                Some(prev) => if c.dpcr.spec_priority(ch) <= c.dpcr.spec_priority(prev) {
                    Some(ch)
                } else {
                    best
                },
            }
        } else {
            best
        };
        assert(picked_so_far(c, i + 1, best2)) by {
            match best2 {
                None => {
                    assert forall|j: usize| j < i + 1 implies !pickable(c, j) by {
                        if j < i {
                        }
                    }
                },
                Some(b) => {
                    assert forall|j: usize| j < i + 1 && j != b && #[trigger] pickable(c, j) implies goes_before(
                        c.dpcr,
                        b,
                        j,
                    ) by {
                        if let Some(prev) = best {
                            if j != prev && j < i {
                                assert(goes_before(c.dpcr, prev, j));
                            }
                        }
                    }
                },
            }
        }
        lemma_pick_from(c, i + 1, best2);
    }
}

/// The channel picked is the one served first: none when no channel may be
/// picked; otherwise a channel that may be picked, with the lowest priority
/// value of all such channels, and of equal values the highest index.
pub proof fn law_pick_first(c: DmaController)
    ensures
        pick_from(c, 0, None) is None <==> (forall|j: usize| j < CHANNELS ==> !pickable(c, j)),
        pick_from(c, 0, None) matches Some(b) ==> {
            &&& b < CHANNELS
            &&& pickable(c, b)
            &&& forall|j: usize| j < CHANNELS && j != b && #[trigger] pickable(c, j) ==> goes_before(c.dpcr, b, j)
        },
{
    lemma_pick_from(c, 0, None);
}

impl DmaController {
    /// Pick the enabled channel with the highest priority that has a
    /// transfer; `None` if none has.
    pub fn pick_highest_prio_chan(&self) -> (r: Option<Port>)
        ensures
            r == (match pick_from(*self, 0, None) {
                Some(i) => port_of(i),
                None => None,
            }),
            r is None <==> pick_from(*self, 0, None) is None,
            r matches Some(p) ==> pick_from(*self, 0, None) == Some(p.index()),
    {
        let mut best: Option<usize> = None;
        let mut i: usize = 0;
        while i < CHANNELS
            invariant
                i <= CHANNELS,
                best matches Some(b) ==> b < CHANNELS,
                pick_from(*self, 0, None) == pick_from(*self, i as nat, best),
            decreases CHANNELS - i,
        {
            let chan = self.channels[i];
            let skip = !self.dpcr.enabled(i) || !chan.chcr.active() || (chan.chcr.sync_mode()
                == SyncMode::Manual && !chan.chcr.trigger()) || (chan.chcr.sync_mode()
                == SyncMode::LinkedList && i != 2);
            if !skip {
                best = match best {
                    None => Some(i),
                    Some(old) => {
                        let p_old = self.dpcr.priority(old);
                        let p_new = self.dpcr.priority(i);
                        if p_new <= p_old {
                            Some(i)
                        } else {
                            Some(old)
                        }
                    },
                };
            }
            i = i + 1;
        }
        assert(pick_from(*self, i as nat, best) == best);
        match best {
            Some(i) => Port::from_repr(i),
            None => None,
        }
    }
}

} // verus!
