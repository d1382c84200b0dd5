use vstd::prelude::*;

use vstd::array::spec_array_update;

use crate::devices::dma::handler::{dma_addr, next_madr, OTC};
use crate::devices::dma::{
    bit32, dicr_with_signal, finished, pick_from, started, with_bit32, Bcr, Channel, Chcr,
    Direction, Dicr, DmaController, Port, SyncMode, CHANNELS,
};
use crate::devices::irq::{InterruptFlags, DMA};
use crate::devices::word_bytes;
use crate::interconnect::{lemma_ram_word, store_defined, Bus, BusModel};
use crate::mem::written;

verus! {

broadcast use vstd::array::group_array_axioms;

/// Runs DMA transfers step by step: one word, or one block, per step.
#[derive(Debug)]
pub struct Dma {
    /// Channels whose transfer started and did not finish yet.
    pub working: [bool; CHANNELS],
}

impl Default for Dma {
    fn default() -> (r: Self)
        ensures
            forall|i: int| 0 <= i < CHANNELS ==> !r.working[i],
    {
        Dma { working: [false; CHANNELS] }
    }
}

/// The first working channel from `i` on.
pub open spec fn first_working_from(w: [bool; CHANNELS], i: nat) -> Option<usize>
    decreases CHANNELS - i,
{
    if i >= CHANNELS {
        None
    } else if w[i as int] {
        Some(i as usize)
    } else {
        first_working_from(w, i + 1)
    }
}

/// The channel a step serves: the picked one, or else the first one still
/// working.
pub open spec fn chosen(d: Dma, b: BusModel) -> Option<usize> {
    match pick_from(b.dma_ctrl, 0, None) {
        Some(i) => Some(i),
        None => first_working_from(d.working, 0),
    }
}

/// One word of an ordering table clear: the bus and the channel after it.
pub open spec fn word_step(b: BusModel, chan: Channel) -> (BusModel, Channel) {
    let wc = chan.bcr.spec_word_count();
    if wc == 0 {
        (b, Channel { bcr: Bcr { bits: (chan.bcr.bits & 0xFFFF_0000u32) | wc as u32 }, ..chan })
    } else {
        let a = dma_addr(chan.madr);
        let word = if wc == 1 {
            0xFF_FFFFu32
        } else {
            chan.madr.wrapping_sub(4) & 0x1F_FFFFu32
        };
        (
            BusModel { ram: written(b.ram, a as int, word_bytes(word)), ..b },
            Channel {
                madr: next_madr(chan.madr, chan.chcr.spec_step()),
                bcr: Bcr { bits: (chan.bcr.bits & 0xFFFF_0000u32) | (wc - 1) as u16 as u32 },
                ..chan
            },
        )
    }
}

/// The channel address after `n` words.
pub open spec fn madr_after_words(madr: u32, chan: Channel, n: nat) -> u32
    decreases n,
{
    if n == 0 {
        madr
    } else {
        madr_after_words(next_madr(madr, chan.chcr.spec_step()), chan, (n - 1) as nat)
    }
}

/// One block of a block transfer: the channel after it (the words are read,
/// and not used yet).
pub open spec fn block_step(chan: Channel) -> Channel {
    let bc = chan.bcr.spec_block_count();
    if bc == 0 {
        Channel { bcr: Bcr { bits: (chan.bcr.bits & 0xFFFFu32) | ((bc as u32) << 16u32) }, ..chan }
    } else {
        Channel {
            madr: madr_after_words(chan.madr, chan, chan.bcr.spec_word_count() as nat),
            bcr: Bcr { bits: (chan.bcr.bits & 0xFFFFu32) | (((bc - 1) as u16 as u32) << 16u32) },
            ..chan
        }
    }
}

/// Whether a step of channel `ch` is one the transfers support: word by word
/// only to RAM on the OTC channel, block transfers, no linked lists.
pub open spec fn step_defined(d: Dma, b: BusModel) -> bool {
    match chosen(d, b) {
        None => true,
        Some(ch) => {
            let chan = b.dma_ctrl.channels[ch as int];
            match chan.chcr.spec_sync_mode() {
                SyncMode::Manual => chan.bcr.spec_word_count() > 0 ==> (
                chan.chcr.spec_direction() == Direction::ToRam && ch == OTC),
                SyncMode::Request => true,
                _ => false,
            }
        },
    }
}

/// The DMA state and the bus after one step: the chosen channel starts (or
/// goes on), transfers a word or a block, and when its transfer is over it
/// stops, raises its interrupt flag, and the DMA interrupt if the flags call
/// for it.
pub open spec fn step_spec(d: Dma, b: BusModel) -> (Dma, BusModel) {
    match chosen(d, b) {
        None => (d, b),
        Some(ch) => {
            let w1 = spec_array_update(d.working, ch as int, true);
            let chan0 = b.dma_ctrl.channels[ch as int];
            let chan1 = Channel { chcr: started(chan0.chcr), ..chan0 };
            let (b1, chan2) = match chan0.chcr.spec_sync_mode() {
                SyncMode::Manual => word_step(b, chan1),
                _ => (b, block_step(chan1)),
            };
            if finished(chan2) {
                let chan3 = Channel { chcr: Chcr { bits: with_bit32(chan2.chcr.bits, 24, false) }, ..chan2 };
                let dicr = Dicr { bits: dicr_with_signal(b1.dma_ctrl.dicr.bits | (1u32 << (24 + ch) as u32)) };
                let int_ctrl = if bit32(dicr.bits, 31) {
                    crate::devices::irq::InterruptController {
                        i_stat: InterruptFlags { bits: b1.int_ctrl.i_stat.bits | DMA },
                        ..b1.int_ctrl
                    }
                } else {
                    b1.int_ctrl
                };
                (
                    Dma { working: spec_array_update(w1, ch as int, false) },
                    BusModel {
                        dma_ctrl: DmaController { dicr, ..b1.dma_ctrl }.with_channel(ch as int, chan3),
                        int_ctrl,
                        ..b1
                    },
                )
            } else {
                (Dma { working: w1 }, BusModel { dma_ctrl: b1.dma_ctrl.with_channel(ch as int, chan2), ..b1 })
            }
        },
    }
}

/// Starting a transfer changes neither its mode, direction nor step.
proof fn lemma_started(c: Chcr)
    ensures
        started(c).spec_sync_mode() == c.spec_sync_mode(),
        started(c).spec_direction() == c.spec_direction(),
        started(c).spec_step() == c.spec_step(),
{
    let x = c.bits;
    assert({
        &&& (with_bit32(x, 24, true) >> 9u32) & 3 == (x >> 9u32) & 3
        &&& (with_bit32(with_bit32(x, 24, true), 28, false) >> 9u32) & 3 == (x >> 9u32) & 3
        &&& with_bit32(x, 24, true) & 1 == x & 1
        &&& with_bit32(with_bit32(x, 24, true), 28, false) & 1 == x & 1
        &&& (with_bit32(x, 24, true) >> 1u32) & 1 == (x >> 1u32) & 1
        &&& (with_bit32(with_bit32(x, 24, true), 28, false) >> 1u32) & 1 == (x >> 1u32) & 1
    }) by (bit_vector);
}

impl Dma {
    /// One step: serve the picked channel, or the first one still working.
    pub fn run(&mut self, bus: &mut Bus)
        requires
            old(bus)@.wf(),
            step_defined(*old(self), old(bus)@),
        ensures
            final(bus)@.wf(),
            (*final(self), final(bus)@) == step_spec(*old(self), old(bus)@),
    {
        // Find hi-prio enabled channel or any channel in work.
        let picked = bus.dma_ctrl.pick_highest_prio_chan();
        let port = match picked {
            Some(p) => p,
            None => {
                let mut found: Option<usize> = None;
                let mut i: usize = 0;
                while i < CHANNELS
                    invariant_except_break
                        found is None,
                    invariant
                        i <= CHANNELS,
                        first_working_from(self.working, 0) == first_working_from(self.working, i as nat),
                    ensures
                        found == first_working_from(self.working, 0),
                        found matches Some(k) ==> k < CHANNELS,
                    decreases CHANNELS - i,
                {
                    if self.working[i] {
                        found = Some(i);
                        break;
                    }
                    i = i + 1;
                }
                match found {
                    Some(i) => match Port::from_repr(i) {
                        Some(p) => p,
                        None => return,
                    },
                    None => return,
                }
            },
        };
        let ch = port.idx();
        self.working[ch] = true;

        let mut chan = bus.dma_ctrl.channels[ch];
        proof {
            lemma_started(chan.chcr);
        }
        chan.start();

        match chan.chcr.sync_mode() {
            SyncMode::Manual => self.transfer_word(bus, port, &mut chan),
            SyncMode::Request => self.transfer_block(bus, port, &mut chan),
            _ => {
                proof {
                    assert(false);
                }
            },
        }

        if chan.try_finish() {
            self.working[ch] = false;
            bus.dma_ctrl.dicr.set_irq_lane(ch);
            if bus.dma_ctrl.dicr.irq_signal() {
                bus.int_ctrl.raise(InterruptFlags::from_bits(DMA));
            }
        }
        bus.dma_ctrl.channels[ch] = chan;
        proof {
            assert(self.working =~= step_spec(*old(self), old(bus)@).0.working);
            assert(bus@.dma_ctrl.channels =~= step_spec(*old(self), old(bus)@).1.dma_ctrl.channels);
        }
    }

    /// One word of a word-by-word transfer: only an ordering table clear.
    fn transfer_word(&mut self, bus: &mut Bus, ch: Port, chan: &mut Channel)
        requires
            old(bus)@.wf(),
            old(chan).bcr.spec_word_count() > 0 ==> (old(chan).chcr.spec_direction()
                == Direction::ToRam && ch.index() == OTC),
        ensures
            final(bus)@.wf(),
            *final(self) == *old(self),
            (final(bus)@, *final(chan)) == word_step(old(bus)@, *old(chan)),
    {
        let mut word_count = chan.bcr.word_count();
        let step = chan.chcr.step();
        if word_count > 0 {
            let addr = chan.madr & 0x1F_FFFCu32;
            let word: u32 = if word_count == 1 {
                // Terminator for table
                0xFF_FFFF
            } else {
                chan.madr.wrapping_sub(4) & 0x1F_FFFFu32
            };
            proof {
                crate::devices::dma::handler::lemma_dma_addr(chan.madr);
                lemma_ram_word(bus@, addr);
            }
            let bytes = crate::devices::le_bytes(word);
            proof {
                assert(store_defined(bus@, addr, bytes@));
            }
            // The store cannot fail: the address is in RAM
            let _ = bus.store::<4>(addr, bytes);
            chan.madr = match step {
                crate::devices::dma::Step::Increment => chan.madr.wrapping_add(4),
                crate::devices::dma::Step::Decrement => chan.madr.wrapping_sub(4),
            };
            word_count = word_count - 1;
        }
        chan.bcr.set_word_count(word_count);
    }

    /// One block of a block transfer: its words are read (and not used yet).
    fn transfer_block(&mut self, bus: &mut Bus, ch: Port, chan: &mut Channel)
        requires
            old(bus)@.wf(),
        ensures
            final(bus)@ == old(bus)@,
            *final(self) == *old(self),
            *final(chan) == block_step(*old(chan)),
    {
        let mut block_count = chan.bcr.block_count();
        let step = chan.chcr.step();
        if block_count > 0 {
            let words = chan.bcr.word_count();
            let mut j: u16 = 0;
            while j < words
                invariant
                    j <= words,
                    words == old(chan).bcr.spec_word_count(),
                    step == old(chan).chcr.spec_step(),
                    chan.chcr == old(chan).chcr,
                    chan.bcr == old(chan).bcr,
                    bus@ == old(bus)@,
                    old(bus)@.wf(),
                    madr_after_words(old(chan).madr, *old(chan), words as nat) == madr_after_words(
                        chan.madr,
                        *old(chan),
                        (words - j) as nat,
                    ),
                decreases words - j,
            {
                let addr = chan.madr & 0x1F_FFFCu32;
                proof {
                    crate::devices::dma::handler::lemma_dma_addr(chan.madr);
                    lemma_ram_word(bus@, addr);
                }
                let _word = bus.load::<4>(addr);
                chan.madr = match step {
                    crate::devices::dma::Step::Increment => chan.madr.wrapping_add(4),
                    crate::devices::dma::Step::Decrement => chan.madr.wrapping_sub(4),
                };
                j = j + 1;
            }
            block_count = block_count - 1;
        }
        chan.bcr.set_block_count(block_count);
    }
}

} // verus!
