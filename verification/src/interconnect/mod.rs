use vstd::prelude::*;

pub mod mmio;

use crate::devices::dma::DmaController;
use crate::devices::gpu::gp0::GpuModel;
use crate::devices::gpu::{Gpu, VRAM_SIZE};
use crate::devices::irq::InterruptController;
use crate::devices::timer::TimerController;
use crate::devices::Mmio;

verus! {

// MIPS uses segmented memory, but PSX ignores them and treats all segments as
// mirrors of each other. The ranges end before their last address.
pub const KUSEG_START: u32 = 0x0000_0000;
pub const KUSEG_END: u32 = 0x7FFF_FFFF;
pub const KSEG0_START: u32 = 0x8000_0000;
pub const KSEG0_END: u32 = 0x9FFF_FFFF;
pub const KSEG1_START: u32 = 0xA000_0000;
pub const KSEG1_END: u32 = 0xBFFF_FFFF;
pub const CACHE_CONTROL: u32 = 0xFFFE_0130;

// Mapped memory
pub const RAM_START: u32 = 0x0000_0000;
pub const RAM_END: u32 = 0x001F_FFFF;
pub const EXPANSION1_START: u32 = 0x1F00_0000;
pub const EXPANSION1_END: u32 = 0x1F7F_FFFF;
pub const SCRATCHPAD_START: u32 = 0x1F80_0000;
pub const SCRATCHPAD_END: u32 = 0x1F80_03FF;

// Hardware registers regions
pub const HW_REGS_START: u32 = 0x1F80_1000;
pub const HW_REGS_END: u32 = 0x1F80_1FFF;
pub const INT_CTRL_START: u32 = 0x1F80_1070;
pub const INT_CTRL_END: u32 = 0x1F80_1078;
pub const DMA_CTRL_START: u32 = 0x1F80_1080;
pub const DMA_CTRL_END: u32 = 0x1F80_10FF;
pub const TIMER_CTRL_START: u32 = 0x1F80_1100;
pub const TIMER_CTRL_END: u32 = 0x1F80_1130;
pub const GPU_START: u32 = 0x1F80_1810;
pub const GPU_END: u32 = 0x1F80_1818;

pub const MISC_START: u32 = 0x1F80_2000;
pub const MISC_END: u32 = 0x1F80_2FFF;
pub const EXPANSION2_START: u32 = 0x1FA0_0000;
pub const EXPANSION2_END: u32 = 0x1FA1_FFFF;
pub const BIOS_START: u32 = 0x1FC0_0000;
pub const BIOS_END: u32 = 0x1FC7_FFFF;

// Sizes of the memory buffers: one byte more than the range.
pub const RAM_SIZE: usize = 0x0020_0000;
pub const EXPANSION1_SIZE: usize = 0x0080_0000;
pub const SCRATCHPAD_SIZE: usize = 0x400;
pub const MISC_SIZE: usize = 0x1000;
pub const EXPANSION2_SIZE: usize = 0x2_0000;
pub const BIOS_SIZE: usize = 0x8_0000;

#[derive(Debug, Clone, Copy, PartialEq, Eq, Structural)]
pub struct BusError {
    pub bad_vaddr: u32,
    pub kind: BusErrorKind,
}

#[derive(Debug, Clone, Copy, PartialEq, Eq, Structural)]
pub enum BusErrorKind {
    UnalignedAddr,
    Unmapped,
}

/// The memory bus: memory regions and the devices mapped on it.
pub struct Bus {
    pub bios: Vec<u8>,
    pub ram: Vec<u8>,
    pub misc: Vec<u8>,
    pub scratchpad: Vec<u8>,
    pub expansion1: Vec<u8>,
    pub expansion2: Vec<u8>,
    // Devices
    pub int_ctrl: InterruptController,
    pub dma_ctrl: DmaController,
    pub timer_ctrl: TimerController,
    pub gpu: Gpu,
}

/// The model of the bus.
pub struct BusModel {
    pub bios: Seq<u8>,
    pub ram: Seq<u8>,
    pub misc: Seq<u8>,
    pub scratchpad: Seq<u8>,
    pub expansion1: Seq<u8>,
    pub expansion2: Seq<u8>,
    pub int_ctrl: InterruptController,
    pub dma_ctrl: DmaController,
    pub timer_ctrl: TimerController,
    pub gpu: GpuModel,
}

impl View for Bus {
    type V = BusModel;

    open spec fn view(&self) -> BusModel {
        BusModel {
            bios: self.bios@,
            ram: self.ram@,
            misc: self.misc@,
            scratchpad: self.scratchpad@,
            expansion1: self.expansion1@,
            expansion2: self.expansion2@,
            int_ctrl: self.int_ctrl,
            dma_ctrl: self.dma_ctrl,
            timer_ctrl: self.timer_ctrl,
            gpu: self.gpu@,
        }
    }
}

impl BusModel {
    /// Every memory buffer has its size, VRAM too.
    pub open spec fn wf(self) -> bool {
        &&& self.bios.len() == BIOS_SIZE
        &&& self.ram.len() == RAM_SIZE
        &&& self.misc.len() == MISC_SIZE
        &&& self.scratchpad.len() == SCRATCHPAD_SIZE
        &&& self.expansion1.len() == EXPANSION1_SIZE
        &&& self.expansion2.len() == EXPANSION2_SIZE
        &&& self.gpu.vram.len() == VRAM_SIZE
    }
}

/// What a physical address reaches.
#[derive(Debug, Clone, Copy, PartialEq, Eq, Structural)]
pub enum Region {
    Ram,
    Expansion1,
    Scratchpad,
    Misc,
    Expansion2,
    Bios,
    IntCtrl,
    DmaCtrl,
    TimerCtrl,
    Gpu,
    HwRegs,
    Unmapped,
}

pub open spec fn within(x: u32, start: u32, end: u32) -> bool {
    start <= x < end
}

/// The region of a physical address, checked in this order.
pub open spec fn region_of(x: u32) -> Region {
    if within(x, RAM_START, RAM_END) {
        Region::Ram
    } else if within(x, EXPANSION1_START, EXPANSION1_END) {
        Region::Expansion1
    } else if within(x, SCRATCHPAD_START, SCRATCHPAD_END) {
        Region::Scratchpad
    } else if within(x, MISC_START, MISC_END) {
        Region::Misc
    } else if within(x, EXPANSION2_START, EXPANSION2_END) {
        Region::Expansion2
    } else if within(x, BIOS_START, BIOS_END) {
        Region::Bios
    } else if within(x, INT_CTRL_START, INT_CTRL_END) {
        Region::IntCtrl
    } else if within(x, DMA_CTRL_START, DMA_CTRL_END) {
        Region::DmaCtrl
    } else if within(x, TIMER_CTRL_START, TIMER_CTRL_END) {
        Region::TimerCtrl
    } else if within(x, GPU_START, GPU_END) {
        Region::Gpu
    } else if within(x, HW_REGS_START, HW_REGS_END) {
        Region::HwRegs
    } else {
        Region::Unmapped
    }
}

/// Physical address of a virtual one: the three segments mirror the low
/// 512 MiB, and the cache control register maps to 0.
pub open spec fn translate(addr: u32) -> Result<u32, BusError> {
    if within(addr, KUSEG_START, KUSEG_END) || within(addr, KSEG0_START, KSEG0_END) || within(
        addr,
        KSEG1_START,
        KSEG1_END,
    ) {
        Ok(addr & 0x1FFF_FFFFu32)
    } else if addr == CACHE_CONTROL {
        Ok(0)
    } else {
        Err(BusError { bad_vaddr: addr, kind: BusErrorKind::Unmapped })
    }
}

/// Translate virtual address from segments into physical one.
pub fn translate_addr(addr: u32) -> (r: Result<u32, BusError>)
    ensures
        r == translate(addr),
{
    if (KUSEG_START <= addr && addr < KUSEG_END) || (KSEG0_START <= addr && addr < KSEG0_END) || (
    KSEG1_START <= addr && addr < KSEG1_END) {
        Ok(addr & 0x1FFF_FFFFu32)
    } else if addr == CACHE_CONTROL {
        Ok(0)
    } else {
        Err(BusError { bad_vaddr: addr, kind: BusErrorKind::Unmapped })
    }
}

/// Whether `addr` is a multiple of the access size.
pub open spec fn aligned(addr: u32, n: nat) -> bool {
    (addr as int) % (n as int) == 0
}

/// The buffer of a memory region, and the start of its range.
pub open spec fn memory_of(b: BusModel, r: Region) -> (Seq<u8>, u32) {
    match r {
        Region::Ram => (b.ram, RAM_START),
        Region::Expansion1 => (b.expansion1, EXPANSION1_START),
        Region::Scratchpad => (b.scratchpad, SCRATCHPAD_START),
        Region::Misc => (b.misc, MISC_START),
        Region::Expansion2 => (b.expansion2, EXPANSION2_START),
        _ => (b.bios, BIOS_START),
    }
}

pub open spec fn is_memory(r: Region) -> bool {
    match r {
        Region::Ram | Region::Expansion1 | Region::Scratchpad | Region::Misc | Region::Expansion2
        | Region::Bios => true,
        _ => false,
    }
}

/// The bus with the buffer of memory region `r` replaced.
pub open spec fn with_memory(b: BusModel, r: Region, m: Seq<u8>) -> BusModel {
    match r {
        Region::Ram => BusModel { ram: m, ..b },
        Region::Expansion1 => BusModel { expansion1: m, ..b },
        Region::Scratchpad => BusModel { scratchpad: m, ..b },
        Region::Misc => BusModel { misc: m, ..b },
        Region::Expansion2 => BusModel { expansion2: m, ..b },
        _ => BusModel { bios: m, ..b },
    }
}

/// Whether a load of `n` bytes at `addr` is one the bus handles: a memory
/// access inside its buffer, a device access the device handles, or an
/// error. The interrupt controller's registers are not handled.
pub open spec fn load_defined(b: BusModel, addr: u32, n: nat) -> bool {
    aligned(addr, n) ==> match translate(addr) {
        Err(_) => true,
        Ok(x) => {
            let r = region_of(x);
            if is_memory(r) {
                (x - memory_of(b, r).1) + n <= memory_of(b, r).0.len()
            } else {
                match r {
                    Region::IntCtrl => false,
                    Region::DmaCtrl => DmaController::read_defined(b.dma_ctrl, (x - DMA_CTRL_START) as u32, n),
                    Region::TimerCtrl => TimerController::read_defined(
                        b.timer_ctrl,
                        (x - TIMER_CTRL_START) as u32,
                        n,
                    ),
                    Region::Gpu => Gpu::read_defined(b.gpu, (x - GPU_START) as u32, n),
                    _ => true,
                }
            }
        },
    }
}

/// A load of `n` bytes at `addr`: the bytes (or the error), and the bus after
/// it (a device register read may change the device).
pub open spec fn load_spec(b: BusModel, addr: u32, n: nat) -> (Result<Seq<u8>, BusError>, BusModel) {
    if !aligned(addr, n) {
        (Err(BusError { bad_vaddr: addr, kind: BusErrorKind::UnalignedAddr }), b)
    } else {
        match translate(addr) {
            Err(e) => (Err(e), b),
            Ok(x) => {
                let r = region_of(x);
                if is_memory(r) {
                    let (m, start) = memory_of(b, r);
                    (Ok(m.subrange(x - start, x - start + n)), b)
                } else {
                    match r {
                        Region::DmaCtrl => {
                            let a = (x - DMA_CTRL_START) as u32;
                            (
                                Ok(crate::devices::lanes(DmaController::register(b.dma_ctrl, a & !3u32), a & 3u32, n)),
                                BusModel { dma_ctrl: DmaController::after_read(b.dma_ctrl, a & !3u32), ..b },
                            )
                        },
                        Region::TimerCtrl => {
                            let a = (x - TIMER_CTRL_START) as u32;
                            (
                                Ok(crate::devices::lanes(TimerController::register(b.timer_ctrl, a & !3u32), a & 3u32, n)),
                                BusModel { timer_ctrl: TimerController::after_read(b.timer_ctrl, a & !3u32), ..b },
                            )
                        },
                        Region::Gpu => {
                            let a = (x - GPU_START) as u32;
                            (
                                Ok(crate::devices::lanes(Gpu::register(b.gpu, a & !3u32), a & 3u32, n)),
                                BusModel { gpu: Gpu::after_read(b.gpu, a & !3u32), ..b },
                            )
                        },
                        Region::HwRegs => (Ok(Seq::new(n, |i: int| 0u8)), b),
                        _ => (Err(BusError { bad_vaddr: addr, kind: BusErrorKind::Unmapped }), b),
                    }
                }
            },
        }
    }
}

/// Whether a store of `value` at `addr` is one the bus handles.
pub open spec fn store_defined(b: BusModel, addr: u32, value: Seq<u8>) -> bool {
    let n = value.len();
    aligned(addr, n) ==> match translate(addr) {
        Err(_) => true,
        Ok(x) => {
            let r = region_of(x);
            if is_memory(r) {
                (x - memory_of(b, r).1) + n <= memory_of(b, r).0.len()
            } else {
                match r {
                    Region::IntCtrl => false,
                    Region::DmaCtrl => DmaController::write_defined(b.dma_ctrl, (x - DMA_CTRL_START) as u32, value),
                    Region::TimerCtrl => TimerController::write_defined(
                        b.timer_ctrl,
                        (x - TIMER_CTRL_START) as u32,
                        value,
                    ),
                    Region::Gpu => Gpu::write_defined(b.gpu, (x - GPU_START) as u32, value),
                    _ => true,
                }
            }
        },
    }
}

/// A store of `value` at `addr`: the error, if any, and the bus after it.
pub open spec fn store_spec(b: BusModel, addr: u32, value: Seq<u8>) -> (Result<(), BusError>, BusModel) {
    let n = value.len();
    if !aligned(addr, n) {
        (Err(BusError { bad_vaddr: addr, kind: BusErrorKind::UnalignedAddr }), b)
    } else {
        match translate(addr) {
            Err(e) => (Err(e), b),
            Ok(x) => {
                let r = region_of(x);
                if is_memory(r) {
                    let (m, start) = memory_of(b, r);
                    let off = x - start;
                    let m2 = Seq::new(m.len(), |i: int| if off <= i < off + n { value[i - off] } else { m[i] });
                    (Ok(()), with_memory(b, r, m2))
                } else {
                    match r {
                        Region::DmaCtrl => {
                            let a = (x - DMA_CTRL_START) as u32;
                            let w = crate::devices::merge_word(DmaController::register(b.dma_ctrl, a & !3u32), a & 3u32, value);
                            (Ok(()), BusModel { dma_ctrl: DmaController::after_write(b.dma_ctrl, a & !3u32, w), ..b })
                        },
                        Region::TimerCtrl => {
                            let a = (x - TIMER_CTRL_START) as u32;
                            let w = crate::devices::merge_word(TimerController::register(b.timer_ctrl, a & !3u32), a & 3u32, value);
                            (Ok(()), BusModel { timer_ctrl: TimerController::after_write(b.timer_ctrl, a & !3u32, w), ..b })
                        },
                        Region::Gpu => {
                            let a = (x - GPU_START) as u32;
                            let w = crate::devices::merge_word(Gpu::register(b.gpu, a & !3u32), a & 3u32, value);
                            (Ok(()), BusModel { gpu: Gpu::after_write(b.gpu, a & !3u32, w), ..b })
                        },
                        Region::HwRegs => (Ok(()), b),
                        _ => (Err(BusError { bad_vaddr: addr, kind: BusErrorKind::Unmapped }), b),
                    }
                }
            },
        }
    }
}


/// `n` bytes of a memory buffer from `off` on.
fn read_mem<const N: usize>(mem: &Vec<u8>, off: usize) -> (r: [u8; N])
    requires
        off + N <= mem@.len(),
        off + N <= usize::MAX,
    ensures
        r@ == mem@.subrange(off as int, off + N),
{
    let mut bytes = [0u8; N];
    let mut i: usize = 0;
    while i < N
        invariant
            off + N <= mem@.len(),
            off + N <= usize::MAX,
            i <= N,
            bytes@.len() == N,
            forall|j: int| 0 <= j < i ==> bytes@[j] == mem@[off + j],
        decreases N - i,
    {
        bytes[i] = mem[off + i];
        i = i + 1;
    }
    assert(bytes@ =~= mem@.subrange(off as int, off + N));
    bytes
}

/// Write `value` into a memory buffer from `off` on.
fn write_mem<const N: usize>(mem: &mut Vec<u8>, off: usize, value: &[u8; N])
    requires
        off + N <= old(mem)@.len(),
        off + N <= usize::MAX,
    ensures
        final(mem)@ == Seq::new(
            old(mem)@.len(),
            |i: int| if off <= i < off + N { value@[i - off] } else { old(mem)@[i] },
        ),
{
    let mut i: usize = 0;
    while i < N
        invariant
            off + N <= mem@.len(),
            off + N <= usize::MAX,
            mem@.len() == old(mem)@.len(),
            i <= N,
            forall|j: int| 0 <= j < mem@.len() ==> mem@[j] == (if off <= j < off + i { value@[j - off] } else { old(mem)@[j] }),
        decreases N - i,
    {
        mem.set(off + i, value[i]);
        i = i + 1;
    }
    assert(mem@ =~= Seq::new(
        old(mem)@.len(),
        |i: int| if off <= i < off + N { value@[i - off] } else { old(mem)@[i] },
    ));
}

impl Default for Bus {
    fn default() -> (r: Self)
        ensures
            r@.wf(),
            forall|i: int| 0 <= i < RAM_SIZE ==> r.ram@[i] == 0,
            forall|i: int| 0 <= i < BIOS_SIZE ==> r.bios@[i] == 0,
            forall|i: int| 0 <= i < MISC_SIZE ==> r.misc@[i] == 0,
            forall|i: int| 0 <= i < SCRATCHPAD_SIZE ==> r.scratchpad@[i] == 0,
            forall|i: int| 0 <= i < EXPANSION1_SIZE ==> r.expansion1@[i] == 0,
            forall|i: int| 0 <= i < EXPANSION2_SIZE ==> r.expansion2@[i] == 0,
            r.int_ctrl.i_stat.bits == 0,
            r.int_ctrl.i_mask.bits == 0,
            r.dma_ctrl.dpcr.bits == crate::devices::dma::DPCR_RESET,
            r.dma_ctrl.dicr.bits == 0,
            forall|i: int| 0 <= i < 7 ==> r.dma_ctrl.channels[i].madr == 0
                && r.dma_ctrl.channels[i].bcr.bits == 0 && r.dma_ctrl.channels[i].chcr.bits == 0,
            forall|i: int|
                0 <= i < 3 ==> r.timer_ctrl.timers[i].counter == 0 && r.timer_ctrl.timers[i].mode.bits
                    == 0 && r.timer_ctrl.timers[i].target == 0,
            r.gpu@.gpustat == crate::devices::gpu::GPUSTAT_RESET,
            r.gpu@.packet is Nop,
            forall|i: int| 0 <= i < VRAM_SIZE ==> r.gpu@.vram[i] == 0,
    {
        Bus {
            bios: vec![0u8; BIOS_SIZE],
            ram: vec![0u8; RAM_SIZE],
            misc: vec![0u8; MISC_SIZE],
            scratchpad: vec![0u8; SCRATCHPAD_SIZE],
            expansion1: vec![0u8; EXPANSION1_SIZE],
            expansion2: vec![0u8; EXPANSION2_SIZE],
            int_ctrl: InterruptController::default(),
            dma_ctrl: DmaController::default(),
            timer_ctrl: TimerController::default(),
            gpu: Gpu::default(),
        }
    }
}

impl Bus {
    /// Load `N` bytes at virtual address `addr` (little endian).
    pub fn load<const N: usize>(&mut self, addr: u32) -> (r: Result<[u8; N], BusError>)
        requires
            0 < N <= u32::MAX,
            old(self)@.wf(),
            load_defined(old(self)@, addr, N as nat),
        ensures
            final(self)@.wf(),
            (match r {
                Ok(b) => Ok(b@),
                Err(e) => Err(e),
            }, final(self)@) == load_spec(old(self)@, addr, N as nat),
    {
        if addr % (N as u32) != 0 {
            return Err(BusError { bad_vaddr: addr, kind: BusErrorKind::UnalignedAddr });
        }
        let x = match translate_addr(addr) {
            Ok(x) => x,
            Err(e) => return Err(e),
        };
        if RAM_START <= x && x < RAM_END {
            Ok(read_mem::<N>(&self.ram, (x - RAM_START) as usize))
        } else if EXPANSION1_START <= x && x < EXPANSION1_END {
            Ok(read_mem::<N>(&self.expansion1, (x - EXPANSION1_START) as usize))
        } else if SCRATCHPAD_START <= x && x < SCRATCHPAD_END {
            Ok(read_mem::<N>(&self.scratchpad, (x - SCRATCHPAD_START) as usize))
        } else if MISC_START <= x && x < MISC_END {
            Ok(read_mem::<N>(&self.misc, (x - MISC_START) as usize))
        } else if EXPANSION2_START <= x && x < EXPANSION2_END {
            Ok(read_mem::<N>(&self.expansion2, (x - EXPANSION2_START) as usize))
        } else if BIOS_START <= x && x < BIOS_END {
            Ok(read_mem::<N>(&self.bios, (x - BIOS_START) as usize))
        } else if INT_CTRL_START <= x && x < INT_CTRL_END {
            // The interrupt controller's registers are not handled
            Err(BusError { bad_vaddr: addr, kind: BusErrorKind::Unmapped })
        } else if DMA_CTRL_START <= x && x < DMA_CTRL_END {
            let mut bytes = [0u8; N];
            self.dma_ctrl.read(&mut bytes, x - DMA_CTRL_START);
            Ok(bytes)
        } else if TIMER_CTRL_START <= x && x < TIMER_CTRL_END {
            let mut bytes = [0u8; N];
            self.timer_ctrl.read(&mut bytes, x - TIMER_CTRL_START);
            Ok(bytes)
        } else if GPU_START <= x && x < GPU_END {
            let mut bytes = [0u8; N];
            self.gpu.read(&mut bytes, x - GPU_START);
            Ok(bytes)
        } else if HW_REGS_START <= x && x < HW_REGS_END {
            let bytes = [0u8; N];
            proof {
                assert(bytes@ =~= Seq::new(N as nat, |i: int| 0u8));
            }
            Ok(bytes)
        } else {
            Err(BusError { bad_vaddr: addr, kind: BusErrorKind::Unmapped })
        }
    }

    /// Store the `N` bytes of `value` at virtual address `addr` (little endian).
    pub fn store<const N: usize>(&mut self, addr: u32, value: [u8; N]) -> (r: Result<(), BusError>)
        requires
            0 < N <= u32::MAX,
            old(self)@.wf(),
            store_defined(old(self)@, addr, value@),
        ensures
            final(self)@.wf(),
            (r, final(self)@) == store_spec(old(self)@, addr, value@),
    {
        if addr % (N as u32) != 0 {
            return Err(BusError { bad_vaddr: addr, kind: BusErrorKind::UnalignedAddr });
        }
        let x = match translate_addr(addr) {
            Ok(x) => x,
            Err(e) => return Err(e),
        };
        if RAM_START <= x && x < RAM_END {
            write_mem::<N>(&mut self.ram, (x - RAM_START) as usize, &value);
        } else if EXPANSION1_START <= x && x < EXPANSION1_END {
            write_mem::<N>(&mut self.expansion1, (x - EXPANSION1_START) as usize, &value);
        } else if SCRATCHPAD_START <= x && x < SCRATCHPAD_END {
            write_mem::<N>(&mut self.scratchpad, (x - SCRATCHPAD_START) as usize, &value);
        } else if MISC_START <= x && x < MISC_END {
            write_mem::<N>(&mut self.misc, (x - MISC_START) as usize, &value);
        } else if EXPANSION2_START <= x && x < EXPANSION2_END {
            write_mem::<N>(&mut self.expansion2, (x - EXPANSION2_START) as usize, &value);
        } else if BIOS_START <= x && x < BIOS_END {
            write_mem::<N>(&mut self.bios, (x - BIOS_START) as usize, &value);
        } else if INT_CTRL_START <= x && x < INT_CTRL_END {
            // The interrupt controller's registers are not handled
            return Err(BusError { bad_vaddr: addr, kind: BusErrorKind::Unmapped });
        } else if DMA_CTRL_START <= x && x < DMA_CTRL_END {
            self.dma_ctrl.write(x - DMA_CTRL_START, &value);
        } else if TIMER_CTRL_START <= x && x < TIMER_CTRL_END {
            self.timer_ctrl.write(x - TIMER_CTRL_START, &value);
        } else if GPU_START <= x && x < GPU_END {
            proof {
                let a = (x - GPU_START) as u32;
                let w = crate::devices::merge_word(Gpu::register(self.gpu@, a & !3u32), a & 3u32, value@);
                crate::devices::gpu::gp0::lemma_dispatched_vram_len(self.gpu@, w);
            }
            self.gpu.write(x - GPU_START, &value);
        } else if HW_REGS_START <= x && x < HW_REGS_END {
        } else {
            return Err(BusError { bad_vaddr: addr, kind: BusErrorKind::Unmapped });
        }
        Ok(())
    }
}


/// The three segments are mirrors of each other: an address in the low
/// 512 MiB, and the same address in KSEG0 and in KSEG1, all reach the same
/// physical address. The last address of the range is left out: the segment
/// ranges end one byte short, so its KSEG0 and KSEG1 mirrors are unmapped.
pub proof fn law_segments_mirror(addr: u32)
    requires
        addr < 0x1FFF_FFFF,
    ensures
        translate(addr) == Ok::<u32, BusError>(addr),
        translate(addr | KSEG0_START) == Ok::<u32, BusError>(addr),
        translate(addr | KSEG1_START) == Ok::<u32, BusError>(addr),
{
    assert(addr < 0x1FFF_FFFF ==> {
        &&& addr & 0x1FFF_FFFFu32 == addr
        &&& (addr | 0x8000_0000u32) & 0x1FFF_FFFFu32 == addr
        &&& (addr | 0xA000_0000u32) & 0x1FFF_FFFFu32 == addr
        &&& addr | 0x8000_0000u32 == addr + 0x8000_0000u32
        &&& addr | 0xA000_0000u32 == addr + 0xA000_0000u32
    }) by (bit_vector);
}

/// A load from memory gives back the bytes that a store at the same address
/// wrote, and reading memory changes nothing on the bus.
pub proof fn law_load_after_store(b: BusModel, addr: u32, value: Seq<u8>)
    requires
        b.wf(),
        value.len() == 1 || value.len() == 2 || value.len() == 4,
        aligned(addr, value.len()),
        translate(addr) is Ok,
        is_memory(region_of(translate(addr)->Ok_0)),
        store_defined(b, addr, value),
    ensures
        store_spec(b, addr, value).0 == Ok::<(), BusError>(()),
        load_spec(store_spec(b, addr, value).1, addr, value.len()).0 == Ok::<Seq<u8>, BusError>(value),
        load_spec(store_spec(b, addr, value).1, addr, value.len()).1 == store_spec(b, addr, value).1,
{
    let x = translate(addr)->Ok_0;
    let r = region_of(x);
    let (m, start) = memory_of(b, r);
    let n = value.len();
    let off = x - start;
    let m2 = Seq::new(m.len(), |i: int| if off <= i < off + n { value[i - off] } else { m[i] });
    let b2 = with_memory(b, r, m2);
    assert(store_spec(b, addr, value).1 == b2);
    assert(memory_of(b2, r) == (m2, start));
    assert(m2.subrange(off, off + n) =~= value);
}


/// A word access at a word address below the end of RAM reaches RAM; above
/// it, up to the first expansion region, nothing is mapped.
pub proof fn lemma_ram_word(b: BusModel, a: u32)
    requires
        b.wf(),
        a % 4 == 0,
        a < EXPANSION1_START,
    ensures
        load_defined(b, a, 4),
        load_spec(b, a, 4) == (if a < RAM_END {
            (Ok::<Seq<u8>, BusError>(b.ram.subrange(a as int, a + 4)), b)
        } else {
            (Err::<Seq<u8>, BusError>(BusError { bad_vaddr: a, kind: BusErrorKind::Unmapped }), b)
        }),
        forall|v: Seq<u8>|
            v.len() == 4 && a < RAM_END ==> #[trigger] store_defined(b, a, v) && store_spec(b, a, v)
                == (Ok::<(), BusError>(()), BusModel { ram: crate::mem::written(b.ram, a as int, v), ..b }),
{
    assert(a < EXPANSION1_START ==> a & 0x1FFF_FFFFu32 == a) by (bit_vector);
    assert forall|v: Seq<u8>| v.len() == 4 && a < RAM_END implies #[trigger] store_defined(b, a, v)
        && store_spec(b, a, v) == (Ok::<(), BusError>(()), BusModel {
        ram: crate::mem::written(b.ram, a as int, v),
        ..b
    }) by {
        let m2 = Seq::new(b.ram.len(), |i: int| if a <= i < a + 4 { v[i - a] } else { b.ram[i] });
        assert(m2 =~= crate::mem::written(b.ram, a as int, v));
    }
}


impl Bus {
    /// Let the devices catch up with the CPU: the DMA channels that have a
    /// transfer to run are served.
    pub fn update(&mut self, cpu_cycles: u64)
        requires
            old(self)@.wf(),
            crate::devices::dma::served_from_defined(
                old(self)@,
                crate::devices::dma::service_order(old(self)@.dma_ctrl.dpcr),
                0,
            ),
        ensures
            final(self)@.wf(),
            final(self)@ == crate::devices::dma::served_from(
                old(self)@,
                crate::devices::dma::service_order(old(self)@.dma_ctrl.dpcr),
                0,
            ),
    {
        DmaController::tick(self);
    }
}

} // verus!
