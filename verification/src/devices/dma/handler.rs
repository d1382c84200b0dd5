use vstd::prelude::*;

use super::{Bcr, Channel, Direction, Step, SyncMode, CHANNELS};
use crate::devices::gpu::gp0::{dispatched, fed, fed_defined, lemma_dispatched_vram_len, GpuModel};
use crate::devices::gpu::VRAM_SIZE;
use crate::devices::{lemma_word_round_trip, word_bytes, word_of};
use crate::interconnect::{lemma_ram_word, store_defined, Bus, BusModel, RAM_END, RAM_SIZE};
use crate::mem::written;

verus! {

/// The GPU channel.
pub const GPU: usize = 2;
/// The channel that clears ordering tables.
pub const OTC: usize = 6;

/// Approximate cycles per transferred word of channel `ch`.
///
/// MdecIn: 0x110 clks per 0x100 words (1 cycle/word).
/// MdecOut: 0x110 clks per 0x100 words (1 cycle/word).
/// GPU: 0x110 clks per 0x100 words (1 cycle/word).
/// CDROM/BIOS: 0x1800 clks per 0x100 words (24 cycles/word).
/// CDROM/Games: 0x2800 clks per 0x100 words (40 cycles/word).
/// SPU: 0x420 clks per 0x100 (4 cycles/word).
/// PIO: 0x1400 clks per 0x100 (20 cycles/word).
/// OTC: 0x110 clks per 0x100 words (1 cycle/word).
pub open spec fn word_cycles(ch: usize) -> u64 {
    if ch == 3 {
        30
    } else if ch == 4 {
        4
    } else if ch == 5 {
        20
    } else {
        1
    }
}

fn timing(ch: usize) -> (r: u64)
    ensures
        r == word_cycles(ch),
{
    if ch == 3 {
        30
    } else if ch == 4 {
        4
    } else if ch == 5 {
        20
    } else {
        1
    }
}

/// The RAM word address that a channel address points at.
pub open spec fn dma_addr(madr: u32) -> u32 {
    madr & 0x1F_FFFCu32
}

/// The channel address after one word.
pub open spec fn next_madr(madr: u32, step: Step) -> u32 {
    match step {
        Step::Increment => madr.wrapping_add(4),
        Step::Decrement => madr.wrapping_sub(4),
    }
}

/// The channel address after `n` words.
pub open spec fn madr_after(madr: u32, step: Step, n: nat) -> u32
    decreases n,
{
    if n == 0 {
        madr
    } else {
        madr_after(next_madr(madr, step), step, (n - 1) as nat)
    }
}

/// The word of RAM at word address `a`.
pub open spec fn ram_word(ram: Seq<u8>, a: u32) -> u32 {
    word_of(ram.subrange(a as int, a + 4))
}

/// RAM after an ordering table of `n` entries was cleared from `madr` on:
/// each entry links to the word before it, the last one is the terminator.
pub open spec fn otc_ram(ram: Seq<u8>, madr: u32, step: Step, n: nat) -> Seq<u8>
    decreases n,
{
    if n == 0 {
        ram
    } else {
        let a = dma_addr(madr);
        let word = if n == 1 {
            0xFF_FFFFu32
        } else {
            a.wrapping_sub(4)
        };
        otc_ram(written(ram, a as int, word_bytes(word)), next_madr(madr, step), step, (n - 1) as nat)
    }
}

/// The `n` words of RAM from `madr` on, in transfer order.
pub open spec fn block_words(ram: Seq<u8>, madr: u32, step: Step, n: nat) -> Seq<u32>
    decreases n,
{
    if n == 0 {
        Seq::empty()
    } else {
        seq![ram_word(ram, dma_addr(madr))] + block_words(ram, next_madr(madr, step), step, (n - 1) as nat)
    }
}

pub open spec fn channel_step(chan: Channel) -> Step {
    chan.chcr.spec_step()
}

/// A word-by-word transfer: only the ordering table clear (to RAM, on the
/// OTC channel) is supported.
pub open spec fn manual_defined(ch: usize, chan: Channel) -> bool {
    chan.bcr.spec_word_count() > 0 ==> (chan.chcr.spec_direction() == Direction::ToRam && ch == OTC)
}

/// The bus and the channel after a word-by-word transfer.
pub open spec fn manual_effect(b: BusModel, chan: Channel) -> (BusModel, Channel) {
    let n = chan.bcr.spec_word_count() as nat;
    (
        BusModel { ram: otc_ram(b.ram, chan.madr, channel_step(chan), n), ..b },
        Channel {
            madr: madr_after(chan.madr, channel_step(chan), n),
            bcr: Bcr { bits: (chan.bcr.bits & 0xFFFF_0000u32) | 0u16 as u32 },
            ..chan
        },
    )
}

pub proof fn lemma_dma_addr(madr: u32)
    ensures
        dma_addr(madr) % 4 == 0,
        dma_addr(madr) < RAM_END,
        dma_addr(madr) + 4 <= 0x20_0000,
{
    assert((madr & 0x1F_FFFCu32) % 4 == 0 && (madr & 0x1F_FFFCu32) <= 0x1F_FFFC) by (bit_vector);
}

/// The address after one word, in the direction of `step`.
fn step_madr(madr: u32, step: Step) -> (r: u32)
    ensures
        r == next_madr(madr, step),
{
    match step {
        Step::Increment => madr.wrapping_add(4),
        Step::Decrement => madr.wrapping_sub(4),
    }
}

/// Word-by-word transfer of channel `ch`: clears an ordering table in RAM.
/// Gives the cycles it took.
pub fn do_manual(bus: &mut Bus, ch: usize, chan: &mut Channel) -> (r: u64)
    requires
        old(bus)@.wf(),
        manual_defined(ch, *old(chan)),
    ensures
        final(bus)@.wf(),
        (final(bus)@, *final(chan)) == manual_effect(old(bus)@, *old(chan)),
        r == old(chan).bcr.spec_word_count() * word_cycles(ch),
{
    let mut cycles = 0u64;
    let step = chan.chcr.step();
    let total = chan.bcr.word_count();
    let mut n: u16 = total;
    let ghost full = manual_effect(bus@, *chan);
    while n > 0
        invariant
            bus@.wf(),
            n <= total,
            total == old(chan).bcr.spec_word_count(),
            step == channel_step(*old(chan)),
            n > 0 ==> (chan.chcr.spec_direction() == Direction::ToRam && ch == OTC),
            chan.chcr == old(chan).chcr,
            chan.bcr == old(chan).bcr,
            full.0 == (BusModel { ram: otc_ram(bus@.ram, chan.madr, step, n as nat), ..bus@ }),
            full.1.madr == madr_after(chan.madr, step, n as nat),
            total > 0 ==> ch == OTC,
            cycles == total - n,
        decreases n,
    {
        let words_left: u16 = n - 1;
        let addr = chan.madr & 0x1F_FFFCu32;
        proof {
            lemma_dma_addr(chan.madr);
            lemma_ram_word(bus@, addr);
        }
        let word: u32 = if words_left == 0 {
            // Terminator for table
            0xFF_FFFF
        } else {
            addr.wrapping_sub(4)
        };
        let bytes = crate::devices::le_bytes(word);
        let ghost b0 = bus@;
        proof {
            assert(store_defined(b0, addr, bytes@));
        }
        // Silently stores, ignoring errors
        let _ = bus.store::<4>(addr, bytes);
        proof {
            assert(bus@ == BusModel { ram: written(b0.ram, addr as int, word_bytes(word)), ..b0 });
            assert(otc_ram(b0.ram, chan.madr, step, n as nat) == otc_ram(
                written(b0.ram, addr as int, word_bytes(word)),
                next_madr(chan.madr, step),
                step,
                words_left as nat,
            ));
        }
        cycles = cycles.saturating_add(timing(OTC));
        chan.madr = step_madr(chan.madr, step);
        n = words_left;
    }
    chan.bcr.set_word_count(0);
    proof {
        assert(word_cycles(OTC) == 1);
        if total == 0 {
            assert(total * word_cycles(ch) == 0);
        }
    }
    cycles
}


/// A block transfer: only RAM to the GPU is supported.
pub open spec fn block_defined(ch: usize, chan: Channel, b: BusModel) -> bool {
    let n = chan.bcr.spec_block_count() * chan.bcr.spec_word_count();
    n > 0 ==> {
        &&& chan.chcr.spec_direction() == Direction::FromRam
        &&& ch == GPU
        &&& fed_defined(b.gpu, block_words(b.ram, chan.madr, channel_step(chan), n as nat))
    }
}

/// The bus and the channel after a block transfer: the blocks of RAM were
/// written to GP0, word after word, and both counts are zero.
pub open spec fn block_effect(b: BusModel, chan: Channel) -> (BusModel, Channel) {
    let n = (chan.bcr.spec_block_count() * chan.bcr.spec_word_count()) as nat;
    let bits1 = (chan.bcr.bits & 0xFFFF_0000u32) | 0u16 as u32;
    (
        BusModel { gpu: fed(b.gpu, block_words(b.ram, chan.madr, channel_step(chan), n)), ..b },
        Channel {
            madr: madr_after(chan.madr, channel_step(chan), n),
            bcr: Bcr { bits: (bits1 & 0xFFFFu32) | ((0u16 as u32) << 16u32) },
            ..chan
        },
    )
}

proof fn lemma_fed_step(g: GpuModel, w: u32, rest: Seq<u32>)
    ensures
        fed(g, seq![w] + rest) == fed(dispatched(g, w), rest),
        fed_defined(g, seq![w] + rest) == (crate::devices::gpu::gp0::dispatch_defined(g, w)
            && fed_defined(dispatched(g, w), rest)),
{
    assert((seq![w] + rest).drop_first() =~= rest);
}

/// Block transfer of channel `ch`: RAM words go to GP0. Gives the cycles it
/// took.
pub fn do_block(bus: &mut Bus, ch: usize, chan: &mut Channel) -> (r: u64)
    requires
        old(bus)@.wf(),
        block_defined(ch, *old(chan), old(bus)@),
    ensures
        final(bus)@.wf(),
        (final(bus)@, *final(chan)) == block_effect(old(bus)@, *old(chan)),
        r == old(chan).bcr.spec_block_count() * old(chan).bcr.spec_word_count() * word_cycles(ch),
{
    let mut cycles = 0u64;
    let step = chan.chcr.step();
    let blocks = chan.bcr.block_count();
    let words = chan.bcr.word_count();
    let ghost full = block_effect(bus@, *chan);
    let ghost total: nat = (blocks * words) as nat;
    let ghost mut m: nat = total;
    proof {
        assert(blocks * words <= 0xFFFF * 0xFFFF) by (nonlinear_arith)
            requires
                blocks <= 0xFFFF,
                words <= 0xFFFF,
        ;
    }
    let mut i: u16 = 0;
    while i < blocks
        invariant
            bus@.wf(),
            i <= blocks,
            blocks == old(chan).bcr.spec_block_count(),
            words == old(chan).bcr.spec_word_count(),
            total == blocks * words,
            total <= 0xFFFF * 0xFFFF,
            m == (blocks - i) * words,
            step == channel_step(*old(chan)),
            total > 0 ==> (chan.chcr.spec_direction() == Direction::FromRam && ch == GPU),
            chan.chcr == old(chan).chcr,
            chan.bcr == old(chan).bcr,
            bus@.ram == old(bus)@.ram,
            full.0 == (BusModel { gpu: fed(bus@.gpu, block_words(bus@.ram, chan.madr, step, m)), ..bus@ }),
            total > 0 ==> fed_defined(bus@.gpu, block_words(bus@.ram, chan.madr, step, m)),
            full.1.madr == madr_after(chan.madr, step, m),
            cycles == total - m,
        decreases blocks - i,
    {
        proof {
            assert((blocks - i) * words == (blocks - i - 1) * words + words) by (nonlinear_arith);
        }
        let mut j: u16 = 0;
        while j < words
            invariant
                bus@.wf(),
                i < blocks,
                j <= words,
                words == old(chan).bcr.spec_word_count(),
                total == blocks * words,
                total <= 0xFFFF * 0xFFFF,
                m == (blocks - i - 1) * words + (words - j),
                step == channel_step(*old(chan)),
                total > 0 ==> (chan.chcr.spec_direction() == Direction::FromRam && ch == GPU),
                chan.chcr == old(chan).chcr,
                chan.bcr == old(chan).bcr,
                bus@.ram == old(bus)@.ram,
                full.0 == (BusModel { gpu: fed(bus@.gpu, block_words(bus@.ram, chan.madr, step, m)), ..bus@ }),
                total > 0 ==> fed_defined(bus@.gpu, block_words(bus@.ram, chan.madr, step, m)),
                full.1.madr == madr_after(chan.madr, step, m),
                cycles == total - m,
            decreases words - j,
        {
            proof {
                assert(total > 0) by (nonlinear_arith)
                    requires
                        total == blocks * words,
                        i < blocks,
                        j < words,
                ;
            }
            let addr = chan.madr & 0x1F_FFFCu32;
            proof {
                lemma_dma_addr(chan.madr);
                lemma_ram_word(bus@, addr);
            }
            let ghost b0 = bus@;
            let loaded = bus.load::<4>(addr);
            let word = match loaded {
                Ok(res) => crate::devices::le_word(res),
                Err(err) => {
                    return cycles;
                },
            };
            let ghost rest = block_words(b0.ram, next_madr(chan.madr, step), step, (m - 1) as nat);
            proof {
                assert(block_words(b0.ram, chan.madr, step, m) == seq![word] + rest);
                lemma_fed_step(b0.gpu, word, rest);
                lemma_dispatched_vram_len(b0.gpu, word);
            }
            bus.gpu.dispatch_gp0(word);
            cycles = cycles.saturating_add(timing(GPU));
            chan.madr = step_madr(chan.madr, step);
            proof {
                m = (m - 1) as nat;
            }
            j = j + 1;
        }
        i = i + 1;
    }
    chan.bcr.set_word_count(0);
    chan.bcr.set_block_count(0);
    proof {
        assert(word_cycles(GPU) == 1);
        if total == 0 {
            assert(blocks * words * word_cycles(ch) == 0) by (nonlinear_arith)
                requires
                    blocks * words == 0,
            ;
        }
    }
    cycles
}


/// The last RAM word address.
pub const RAM_LAST_WORD: u32 = 0x1F_FFFC;

/// Flag of a linked-list header: the last node.
pub const LIST_END: u32 = 0x80_0000;

/// The commands of the node at word address `a` whose header says `size`:
/// those that follow the header in RAM (a command past the end of RAM ends
/// the transfer).
pub open spec fn node_words(ram: Seq<u8>, a: u32, size: nat) -> Seq<u32> {
    let avail = ((RAM_LAST_WORD - a) / 4) as nat;
    let k = if size <= avail { size } else { avail };
    Seq::new(k, |i: int| ram_word(ram, (a + 4 * (i + 1)) as u32))
}

/// Walking a linked list of GP0 commands from `madr`, at most `fuel` nodes:
/// the commands, in order, if the list ends (by the end flag, or a command
/// past the end of RAM) within that many nodes.
pub open spec fn ll_walk(ram: Seq<u8>, madr: u32, fuel: nat) -> Option<Seq<u32>>
    decreases fuel,
{
    if fuel == 0 {
        None
    } else {
        let a = dma_addr(madr);
        let header = ram_word(ram, a);
        let size = (header >> 24u32) as nat;
        let words = node_words(ram, a, size);
        if size > (RAM_LAST_WORD - a) / 4 || header & LIST_END != 0 {
            Some(words)
        } else {
            match ll_walk(ram, header & 0x1F_FFFCu32, (fuel - 1) as nat) {
                Some(rest) => Some(words + rest),
                None => None,
            }
        }
    }
}

/// Whether the list from `madr` ends.
pub open spec fn ll_ends(ram: Seq<u8>, madr: u32) -> bool {
    exists|f: nat| #[trigger] ll_walk(ram, madr, f) is Some
}

/// The commands of the list from `madr`, if it ends.
pub open spec fn ll_words(ram: Seq<u8>, madr: u32) -> Seq<u32> {
    ll_walk(ram, madr, choose|f: nat| #[trigger] ll_walk(ram, madr, f) is Some)->Some_0
}

/// More nodes of fuel change nothing once the list ended.
pub proof fn lemma_ll_fuel(ram: Seq<u8>, madr: u32, f: nat, g: nat)
    requires
        ll_walk(ram, madr, f) is Some,
        f <= g,
    ensures
        ll_walk(ram, madr, g) == ll_walk(ram, madr, f),
    decreases f,
{
    let a = dma_addr(madr);
    let header = ram_word(ram, a);
    if !((header >> 24u32) as nat > (RAM_LAST_WORD - a) / 4 || header & LIST_END != 0) {
        lemma_ll_fuel(ram, header & 0x1F_FFFCu32, (f - 1) as nat, (g - 1) as nat);
    }
}

/// A linked-list transfer runs on the GPU channel, over a list that ends, and
/// GP0 handles its commands.
pub open spec fn ll_defined(ch: usize, chan: Channel, b: BusModel) -> bool {
    &&& ch == GPU
    &&& ll_ends(b.ram, chan.madr)
    &&& fed_defined(b.gpu, ll_words(b.ram, chan.madr))
}

/// `n` saturated to a 64-bit count.
pub open spec fn saturated(n: nat) -> u64 {
    if n <= u64::MAX {
        n as u64
    } else {
        u64::MAX
    }
}

/// Linked-list transfer of channel `ch`: the commands of each node go to
/// GP0, node after node, until the last node or a command past the end of
/// RAM; the channel address is then the end marker. Gives the cycles it took.
pub fn do_linked_list(bus: &mut Bus, ch: usize, chan: &mut Channel) -> (r: u64)
    requires
        old(bus)@.wf(),
        ll_defined(ch, *old(chan), old(bus)@),
    ensures
        final(bus)@.wf(),
        final(bus)@ == (BusModel {
            gpu: fed(old(bus)@.gpu, ll_words(old(bus)@.ram, old(chan).madr)),
            ..old(bus)@
        }),
        *final(chan) == (Channel { madr: 0xFF_FFFF, ..*old(chan) }),
        r == saturated(ll_words(old(bus)@.ram, old(chan).madr).len()),
{
    let ghost ram = bus@.ram;
    let ghost f0 = choose|f: nat| #[trigger] ll_walk(ram, chan.madr, f) is Some;
    let ghost all = ll_words(ram, chan.madr);
    let ghost final_gpu = fed(bus@.gpu, all);
    let ghost mut fuel: nat = f0;
    let ghost mut rest: Seq<u32> = all;
    let mut cycles = 0u64;
    loop
        invariant
            bus@.wf(),
            bus@.ram == ram,
            bus@ == (BusModel { gpu: bus@.gpu, ..old(bus)@ }),
            chan.chcr == old(chan).chcr,
            chan.bcr == old(chan).bcr,
            ch == GPU,
            ram == old(bus)@.ram,
            all == ll_words(ram, old(chan).madr),
            final_gpu == fed(old(bus)@.gpu, all),
            ll_walk(ram, chan.madr, fuel) == Some(rest),
            fed(bus@.gpu, rest) == final_gpu,
            fed_defined(bus@.gpu, rest),
            rest.len() <= all.len(),
            cycles == saturated((all.len() - rest.len()) as nat),
        decreases fuel,
    {
        let addr0 = chan.madr & 0x1F_FFFCu32;
        proof {
            lemma_dma_addr(chan.madr);
            lemma_ram_word(bus@, addr0);
        }
        let header = match bus.load::<4>(addr0) {
            Ok(res) => crate::devices::le_word(res),
            Err(err) => {
                chan.madr = 0xFF_FFFF;
                return cycles;
            },
        };
        let size: u32 = header >> 24u32;
        let ghost node = node_words(ram, addr0, size as nat);
        let ghost after = rest.subrange(node.len() as int, rest.len() as int);
        proof {
            assert(rest =~= node + after);
        }
        let mut addr = addr0;
        let mut k: u32 = 0;
        while k < size
            invariant
                bus@.wf(),
                bus@.ram == ram,
                bus@ == (BusModel { gpu: bus@.gpu, ..old(bus)@ }),
                chan.chcr == old(chan).chcr,
                chan.bcr == old(chan).bcr,
                ch == GPU,
                ram == old(bus)@.ram,
                all == ll_words(ram, old(chan).madr),
                final_gpu == fed(old(bus)@.gpu, all),
                addr0 == dma_addr(chan.madr),
                addr0 % 4 == 0,
                addr0 <= RAM_LAST_WORD,
                header == ram_word(ram, addr0),
                size == header >> 24u32,
                k <= size,
                k <= node.len(),
                addr == addr0 + 4 * k,
                node == node_words(ram, addr0, size as nat),
                ll_walk(ram, chan.madr, fuel) == Some(node + after),
                rest == node.subrange(k as int, node.len() as int) + after,
                fed(bus@.gpu, rest) == final_gpu,
                fed_defined(bus@.gpu, rest),
                rest.len() <= all.len(),
                cycles == saturated((all.len() - rest.len()) as nat),
            decreases size - k,
        {
            addr = addr + 4;
            proof {
                lemma_ram_word(bus@, addr);
            }
            let command = match bus.load::<4>(addr) {
                Ok(res) => crate::devices::le_word(res),
                Err(err) => {
                    proof {
                        assert(k == node.len());
                        assert(size > (RAM_LAST_WORD - addr0) / 4);
                        assert(ll_walk(ram, chan.madr, fuel) == Some(node));
                        assert((node + after).len() == node.len());
                        assert(rest =~= after);
                        assert(after.len() == 0);
                        assert(fed(bus@.gpu, rest) == bus@.gpu);
                    }
                    chan.madr = 0xFF_FFFF;
                    return cycles;
                },
            };
            let ghost tail = node.subrange(k + 1, node.len() as int) + after;
            proof {
                assert(k < node.len());
                assert(command == node[k as int]);
                assert(rest =~= seq![command] + tail);
                lemma_fed_step(bus@.gpu, command, rest.drop_first());
                assert(rest.drop_first() =~= tail);
                lemma_dispatched_vram_len(bus@.gpu, command);
            }
            bus.gpu.dispatch_gp0(command);
            cycles = cycles.saturating_add(timing(GPU));
            proof {
                rest = tail;
            }
            k = k + 1;
        }
        proof {
            assert(rest =~= after);
        }
        if header & LIST_END != 0 {
            proof {
                assert(ll_walk(ram, chan.madr, fuel) == Some(node));
                assert((node + after).len() == node.len());
                assert(after.len() == 0);
                assert(fed(bus@.gpu, rest) == bus@.gpu);
            }
            chan.madr = 0xFF_FFFF;
            return cycles;
        }
        chan.madr = header & 0x1F_FFFCu32;
        proof {
            fuel = (fuel - 1) as nat;
        }
    }
}


/// Clearing a table downwards writes nothing outside the words it clears.
proof fn lemma_otc_frame(ram: Seq<u8>, madr: u32, n: nat)
    requires
        n >= 1,
        dma_addr(madr) >= 4 * (n - 1),
    ensures
        otc_ram(ram, madr, Step::Decrement, n).len() == ram.len(),
        forall|i: int|
            0 <= i < ram.len() && (i < dma_addr(madr) - 4 * (n - 1) || i >= dma_addr(madr) + 4)
                ==> #[trigger] otc_ram(ram, madr, Step::Decrement, n)[i] == ram[i],
    decreases n,
{
    let a = dma_addr(madr);
    let word = if n == 1 { 0xFF_FFFFu32 } else { a.wrapping_sub(4) };
    let ram1 = written(ram, a as int, word_bytes(word));
    let next = next_madr(madr, Step::Decrement);
    if n > 1 {
        assert(dma_addr(next) == a - 4) by (bit_vector)
            requires
                a == madr & 0x1F_FFFCu32,
                a >= 4,
                next == madr.wrapping_sub(4),
            ;
        lemma_otc_frame(ram1, next, (n - 1) as nat);
    }
    assert(otc_ram(ram, madr, Step::Decrement, n) == otc_ram(ram1, next, Step::Decrement, (n - 1) as nat));
}

/// The words of a table cleared downwards: each entry links to the entry
/// below it, and the last one is the terminator.
proof fn lemma_otc_words(ram: Seq<u8>, madr: u32, n: nat, k: nat)
    requires
        ram.len() == RAM_SIZE,
        k < n,
        dma_addr(madr) >= 4 * (n - 1),
    ensures
        ram_word(otc_ram(ram, madr, Step::Decrement, n), (dma_addr(madr) - 4 * k) as u32) == (if k
            == n - 1 {
            0xFF_FFFFu32
        } else {
            (dma_addr(madr) - 4 * k - 4) as u32
        }),
    decreases n,
{
    let a = dma_addr(madr);
    lemma_dma_addr(madr);
    let word = if n == 1 { 0xFF_FFFFu32 } else { a.wrapping_sub(4) };
    let ram1 = written(ram, a as int, word_bytes(word));
    let next = next_madr(madr, Step::Decrement);
    let out = otc_ram(ram, madr, Step::Decrement, n);
    assert(out == otc_ram(ram1, next, Step::Decrement, (n - 1) as nat));
    if n > 1 {
        assert(dma_addr(next) == a - 4) by (bit_vector)
            requires
                a == madr & 0x1F_FFFCu32,
                a >= 4,
                next == madr.wrapping_sub(4),
            ;
    }
    if k == 0 {
        if n > 1 {
            lemma_otc_frame(ram1, next, (n - 1) as nat);
        }
        assert(out.subrange(a as int, a + 4) =~= word_bytes(word));
        lemma_word_round_trip(word);
    } else {
        lemma_otc_words(ram1, next, (n - 1) as nat, (k - 1) as nat);
        assert(dma_addr(next) - 4 * (k - 1) == a - 4 * k);
    }
}

/// Walking a cleared table from its entry `k` on: no commands, and the
/// walk ends at the terminator.
proof fn lemma_otc_walk(ram: Seq<u8>, madr: u32, n: nat, x: u32, k: nat)
    requires
        ram.len() == RAM_SIZE,
        k < n,
        dma_addr(madr) >= 4 * (n - 1),
        dma_addr(x) == dma_addr(madr) - 4 * k,
    ensures
        ll_walk(otc_ram(ram, madr, Step::Decrement, n), x, (n - k) as nat) == Some(Seq::<u32>::empty()),
    decreases n - k,
{
    let out = otc_ram(ram, madr, Step::Decrement, n);
    let a = dma_addr(x);
    lemma_dma_addr(x);
    lemma_otc_words(ram, madr, n, k);
    let header = ram_word(out, a);
    assert(node_words(out, a, (header >> 24u32) as nat) =~= Seq::<u32>::empty()) by {
        if k == n - 1 {
            assert(0xFF_FFFFu32 >> 24u32 == 0) by (bit_vector);
        } else {
            assert(header >> 24u32 == 0) by (bit_vector)
                requires
                    header < 0x20_0000,
                ;
        }
    }
    if k == n - 1 {
        assert(0xFF_FFFFu32 & LIST_END != 0) by (bit_vector);
    } else {
        assert(header >> 24u32 == 0 && header & LIST_END == 0 && header & 0x1F_FFFCu32 == header
            && dma_addr(header) == header) by (bit_vector)
            requires
                header < 0x20_0000,
                header % 4 == 0,
            ;
        lemma_otc_walk(ram, madr, n, header & 0x1F_FFFCu32, k + 1);
        assert(Seq::<u32>::empty() + Seq::<u32>::empty() =~= Seq::<u32>::empty());
    }
}

/// An ordering table that the OTC channel cleared downwards, read back as a
/// GPU linked list from the address it was cleared from, ends (at its
/// terminator) and carries no commands.
pub proof fn law_cleared_table_is_empty_list(ram: Seq<u8>, madr: u32, n: nat)
    requires
        ram.len() == RAM_SIZE,
        n >= 1,
        dma_addr(madr) >= 4 * (n - 1),
    ensures
        ll_ends(otc_ram(ram, madr, Step::Decrement, n), madr),
        ll_words(otc_ram(ram, madr, Step::Decrement, n), madr) == Seq::<u32>::empty(),
{
    let out = otc_ram(ram, madr, Step::Decrement, n);
    lemma_otc_walk(ram, madr, n, madr, 0);
    assert(ll_walk(out, madr, n) is Some);
    let f = choose|f: nat| #[trigger] ll_walk(out, madr, f) is Some;
    if f <= n {
        lemma_ll_fuel(out, madr, f, n);
    } else {
        lemma_ll_fuel(out, madr, n, f);
    }
}

} // verus!
