use vstd::prelude::*;

pub mod cmd;
pub mod gp0;
pub mod gp1;
pub mod types;

use super::{copy_lanes, merge_lanes, Mmio};
use crate::render::types::Size;
use crate::devices::irq::{InterruptController, GPU};

verus! {

pub const VRAM_WIDTH: usize = 1024;
pub const VRAM_HEIGHT: usize = 512;
pub const VRAM_SIZE: usize = 0x8_0000;

/// The GPU: its status register, its VRAM (row after row), and the state of
/// the GP0 command and GPUREAD data transfers.
pub struct Gpu {
    pub gpustat: GpuStat,
    pub vram: Vec<u16>,
    pub cmdbuf: gp0::CmdBuf,
    pub databuf: gp0::DataBuf,
}

/// GPU status register (GPUSTAT).
///
/// Bits: 0..4 texture page X base, 4 texture page Y base, 5..7 semi
/// transparency, 7..9 texture depth, 9 dither, 10 draw to display area, 11 set
/// mask, 12 draw to masked pixels, 13 interlace field, 14 reverse flag, 15
/// texture disable, 16 horizontal resolution 2, 17..19 horizontal resolution 1,
/// 19 vertical resolution, 20 video mode, 21 display depth, 22 vertical
/// interlace, 23 display disabled, 24 interrupt request, 25 DMA data request,
/// 26 ready to receive a command, 27 ready to send VRAM, 28 ready to receive
/// DMA, 29..31 DMA direction, 31 drawing even/odd lines.
#[derive(Debug, Clone, Copy, PartialEq, Eq, Structural)]
pub struct GpuStat {
    pub bits: u32,
}

#[derive(Debug, Clone, Copy, PartialEq, Eq, Structural)]
pub enum SemiTransparency {
    Average,
    Add,
    Subtract,
    AddQuarter,
}

#[derive(Debug, Clone, Copy, PartialEq, Eq, Structural)]
pub enum TextureDepth {
    Bpp4,
    Bpp8,
    Bpp15,
    Reserved,
}

#[derive(Debug, Clone, Copy, PartialEq, Eq, Structural)]
pub enum HorizontalResolution {
    H256,
    H320,
    H512,
    H640,
}

#[derive(Debug, Clone, Copy, PartialEq, Eq, Structural)]
pub enum VerticalResolution {
    V240,
    V480,
}

#[derive(Debug, Clone, Copy, PartialEq, Eq, Structural)]
pub enum VideoMode {
    Ntsc,
    Pal,
}

#[derive(Debug, Clone, Copy, PartialEq, Eq, Structural)]
pub enum DisplayDepth {
    Bpp15,
    Bpp24,
}

#[derive(Debug, Clone, Copy, PartialEq, Eq, Structural)]
pub enum GpuDmaDirection {
    Off,
    Fifo,
    CpuToGp0,
    VramToCpu,
}

/// Interlace field, display disabled, ready for commands and for DMA.
pub const GPUSTAT_RESET: u32 = 0x1480_2000;

pub const INTERRUPT_REQUEST_BIT: u32 = 24;
pub const DISPLAY_DISABLED_BIT: u32 = 23;
pub const READY_TO_SEND_VRAM_BIT: u32 = 27;

pub open spec fn stat_bit(bits: u32, n: u32) -> bool {
    (bits >> n) & 1 != 0
}

pub open spec fn stat_with_bit(bits: u32, n: u32, v: bool) -> u32 {
    if v {
        bits | (1u32 << n)
    } else {
        bits & !(1u32 << n)
    }
}

impl GpuStat {
    pub fn interrupt_request(self) -> (r: bool)
        ensures
            r == stat_bit(self.bits, INTERRUPT_REQUEST_BIT),
    {
        (self.bits >> INTERRUPT_REQUEST_BIT) & 1 != 0
    }

    pub fn display_disabled(self) -> (r: bool)
        ensures
            r == stat_bit(self.bits, DISPLAY_DISABLED_BIT),
    {
        (self.bits >> DISPLAY_DISABLED_BIT) & 1 != 0
    }

    pub fn ready_to_send_vram(self) -> (r: bool)
        ensures
            r == stat_bit(self.bits, READY_TO_SEND_VRAM_BIT),
    {
        (self.bits >> READY_TO_SEND_VRAM_BIT) & 1 != 0
    }

    pub fn dma_direction(self) -> (r: GpuDmaDirection)
        ensures
            r == (match (self.bits >> 29u32) & 3 {
                0 => GpuDmaDirection::Off,
                1 => GpuDmaDirection::Fifo,
                2 => GpuDmaDirection::CpuToGp0,
                _ => GpuDmaDirection::VramToCpu,
            }),
    {
        match (self.bits >> 29u32) & 3 {
            0 => GpuDmaDirection::Off,
            1 => GpuDmaDirection::Fifo,
            2 => GpuDmaDirection::CpuToGp0,
            _ => GpuDmaDirection::VramToCpu,
        }
    }

    pub fn set_bit(&mut self, n: u32, v: bool)
        requires
            n < 32,
        ensures
            final(self).bits == stat_with_bit(old(self).bits, n, v),
    {
        self.bits = if v {
            self.bits | (1u32 << n)
        } else {
            self.bits & !(1u32 << n)
        };
    }

    pub fn set_dma_direction(&mut self, d: GpuDmaDirection)
        ensures
            final(self).bits == (old(self).bits & !0x6000_0000u32) | ((match d {
                GpuDmaDirection::Off => 0u32,
                GpuDmaDirection::Fifo => 1u32,
                GpuDmaDirection::CpuToGp0 => 2u32,
                GpuDmaDirection::VramToCpu => 3u32,
            }) << 29u32),
    {
        let v: u32 = match d {
            GpuDmaDirection::Off => 0u32,
            GpuDmaDirection::Fifo => 1u32,
            GpuDmaDirection::CpuToGp0 => 2u32,
            GpuDmaDirection::VramToCpu => 3u32,
        };
        self.bits = (self.bits & !0x6000_0000u32) | (v << 29u32);
    }
}

impl Default for GpuStat {
    fn default() -> (r: Self)
        ensures
            r.bits == GPUSTAT_RESET,
    {
        GpuStat { bits: GPUSTAT_RESET }
    }
}

impl Gpu {
    /// VRAM holds 1024 x 512 pixels, and a command in progress keeps its
    /// shape (a copy to VRAM learns its position before its size).
    pub open spec fn wf(&self) -> bool {
        &&& self.vram@.len() == VRAM_SIZE
        &&& self.cmdbuf.packet matches gp0::Packet::Cpu2Vram(p) ==> (p.size is Some ==> p.pos is Some)
    }
}

impl View for Gpu {
    type V = gp0::GpuModel;

    open spec fn view(&self) -> gp0::GpuModel {
        gp0::GpuModel {
            gpustat: self.gpustat.bits,
            vram: self.vram@,
            packet: self.cmdbuf.packet@,
            databuf: self.databuf,
        }
    }
}

/// GPUSTAT as read by the CPU: bit 19 reads as 0.
pub open spec fn gpustat_read(bits: u32) -> u32 {
    bits & !(1u32 << 19u32)
}

impl Mmio for Gpu {
    /// GP0/GPUREAD at 0x0 and GP1/GPUSTAT at 0x4.
    open spec fn read_defined(m: gp0::GpuModel, addr: u32, len: nat) -> bool {
        let a = addr & !3u32;
        &&& a == 0 || a == 4
        &&& (addr & 3u32) + len <= 4
        &&& m.vram.len() == VRAM_SIZE
        &&& a == 0 ==> gp0::gpuread_defined(m)
    }

    open spec fn register(m: gp0::GpuModel, addr: u32) -> u32 {
        if addr == 0 {
            gp0::gpuread(m).0
        } else {
            gpustat_read(m.gpustat)
        }
    }

    open spec fn after_read(m: gp0::GpuModel, addr: u32) -> gp0::GpuModel {
        if addr == 0 {
            gp0::gpuread(m).1
        } else {
            m
        }
    }

    open spec fn write_defined(m: gp0::GpuModel, addr: u32, value: Seq<u8>) -> bool {
        let a = addr & !3u32;
        &&& a == 0 || a == 4
        &&& (addr & 3u32) + value.len() <= 4
        &&& m.vram.len() == VRAM_SIZE
        &&& a == 0 && value.len() < 4 ==> gp0::gpuread_defined(m)
        &&& a == 0 ==> gp0::dispatch_defined(
            m,
            super::merge_word(Self::register(m, 0), addr & 3u32, value),
        )
    }

    /// A word to GP0 is a drawing command, a word to GP1 a display command.
    open spec fn after_write(m: gp0::GpuModel, addr: u32, word: u32) -> gp0::GpuModel {
        if addr == 0 {
            gp0::dispatched(m, word)
        } else {
            gp1::processed(m, word)
        }
    }

    fn read(&mut self, dest: &mut [u8], addr: u32) {
        let a: u32 = addr & !3u32;
        let val: u32 = if a == 0 {
            gp0::read(self)
        } else {
            self.gpustat.bits & !(1u32 << 19u32)
        };
        copy_lanes(dest, val, addr & 3u32);
    }

    fn write(&mut self, addr: u32, value: &[u8]) {
        let a: u32 = addr & !3u32;
        let off: u32 = addr & 3u32;
        let current: u32 = if a == 0 {
            if value.len() < 4 {
                self.peek_gpuread()
            } else {
                proof {
                    assert(off == 0);
                    lemma_merge_full(Self::register(self@, 0), value@);
                }
                0
            }
        } else {
            self.gpustat.bits & !(1u32 << 19u32)
        };
        let val: u32 = merge_lanes(current, off, value);
        proof {
            if a == 0 && value@.len() == 4 {
                lemma_merge_full(0, value@);
            }
        }
        if a == 0 {
            gp0::dispatch(self, val);
        } else {
            gp1::process(self, val);
        }
    }
}

/// A write of all four lanes does not depend on the register.
proof fn lemma_merge_full(w: u32, value: Seq<u8>)
    requires
        value.len() == 4,
    ensures
        super::merge_word(w, 0, value) == super::word_of(value),
{
    assert(Seq::new(4, |i: int| if 0 <= i < 0 + value.len() { value[i - 0] } else { super::word_bytes(w)[i] }) =~= value);
}

impl Gpu {
    /// The value a GPUREAD would give, without moving the transfer on.
    fn peek_gpuread(&self) -> (r: u32)
        requires
            gp0::gpuread_defined(self@),
        ensures
            r == gp0::gpuread(self@).0,
    {
        let d = self.databuf;
        let a = gp0::next_pixel(&self.vram, d);
        let b = gp0::next_pixel(&self.vram, gp0::advanced(d));
        (b << 16u32) | a
    }
}

impl Default for Gpu {
    fn default() -> (r: Self)
        ensures
            r.wf(),
            r.gpustat.bits == GPUSTAT_RESET,
            forall|i: int| 0 <= i < VRAM_SIZE ==> r.vram@[i] == 0,
            r.cmdbuf.packet is Nop,
            r.databuf.pixels_read == 0,
            r.databuf.size == (crate::render::types::Size { w: 0, h: 0 }),
            r.databuf.pos == (crate::render::types::Position { x: 0, y: 0 }),
    {
        Gpu {
            gpustat: GpuStat { bits: GPUSTAT_RESET },
            vram: vec![0u16; VRAM_SIZE],
            cmdbuf: gp0::CmdBuf::default(),
            databuf: gp0::DataBuf::default(),
        }
    }
}

impl Gpu {
    /// Raise the GPU interrupt line while the GPU requests an interrupt.
    pub fn tick(&self, int_ctrl: &mut InterruptController)
        ensures
            final(int_ctrl).i_stat.bits == (if stat_bit(self.gpustat.bits, INTERRUPT_REQUEST_BIT) {
                old(int_ctrl).i_stat.bits | GPU
            } else {
                old(int_ctrl).i_stat.bits
            }),
            final(int_ctrl).i_mask == old(int_ctrl).i_mask,
    {
        if self.gpustat.interrupt_request() {
            int_ctrl.raise(crate::devices::irq::InterruptFlags::from_bits(GPU));
        }
    }
}


impl Gpu {
    /// A word written to GP0.
    pub fn dispatch_gp0(&mut self, cmd: u32)
        requires
            gp0::dispatch_defined(old(self)@, cmd),
        ensures
            final(self)@ == gp0::dispatched(old(self)@, cmd),
    {
        gp0::dispatch(self, cmd)
    }

    /// A word written to GP1.
    pub fn dispatch_gp1(&mut self, cmd: u32)
        ensures
            final(self)@ == gp1::processed(old(self)@, cmd),
    {
        gp1::process(self, cmd)
    }
}

} // verus!
