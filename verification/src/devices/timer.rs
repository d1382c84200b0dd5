use vstd::prelude::*;

use vstd::array::spec_array_update;

use super::{copy_lanes, merge_lanes, Mmio};

verus! {

broadcast use vstd::array::group_array_axioms;

pub const TIMERS: usize = 3;

/// The three root counters.
#[derive(Debug)]
pub struct TimerController {
    pub timers: [Timer; TIMERS],
}

#[derive(Debug, Clone, Copy, PartialEq, Eq, Structural)]
pub struct Timer {
    /// Current counter value.
    pub counter: u16,
    /// Counter mode.
    pub mode: TimerMode,
    /// Counter target value.
    pub target: u16,
}

/// Counter mode register.
///
/// Bits: 0 sync enable, 1..3 sync mode, 3 reset at target, 4 IRQ at target,
/// 5 IRQ at 0xFFFF, 6 IRQ repeat, 7 IRQ toggle, 8..10 clock source, 10 IRQ
/// request (0 = request), 11 reached target, 12 reached 0xFFFF.
#[derive(Debug, Clone, Copy, PartialEq, Eq, Structural)]
pub struct TimerMode {
    pub bits: u16,
}

#[derive(Debug, Clone, Copy, PartialEq, Eq, Structural)]
pub enum SyncMode {
    Mode0,
    Mode1,
    Mode2,
    Mode3,
}

#[derive(Debug, Clone, Copy, PartialEq, Eq, Structural)]
pub enum ClockSource {
    Source0,
    Source1,
    Source2,
    Source3,
}

pub open spec fn bit16(bits: u16, n: u16) -> bool {
    (bits >> n) & 1 != 0
}

/// Reached-target and reached-0xFFFF flags.
pub const REACHED_FLAGS: u16 = 0x1800;

/// The IRQ request flag.
pub const IRQ_REQUEST: u16 = 0x400;

impl TimerMode {
    /// The mode register holding `bits`.
    pub fn from_bits(bits: u16) -> (r: Self)
        ensures
            r.bits == bits,
    {
        TimerMode { bits }
    }

    /// Synchronize counter with HBlank/VBlank depending on timer index.
    pub fn sync_enabled(self) -> (r: bool)
        ensures
            r == bit16(self.bits, 0),
    {
        (self.bits >> 0u16) & 1 != 0
    }

    /// Synchronization mode. Meaning depends on timer index.
    pub fn sync_mode(self) -> (r: SyncMode)
        ensures
            r == (match (self.bits >> 1u16) & 3 {
                0 => SyncMode::Mode0,
                1 => SyncMode::Mode1,
                2 => SyncMode::Mode2,
                _ => SyncMode::Mode3,
            }),
    {
        match (self.bits >> 1u16) & 3 {
            0 => SyncMode::Mode0,
            1 => SyncMode::Mode1,
            2 => SyncMode::Mode2,
            _ => SyncMode::Mode3,
        }
    }

    /// Reset at target instead of overflowing after 0xFFFF.
    pub fn reset_on_target(self) -> (r: bool)
        ensures
            r == bit16(self.bits, 3),
    {
        (self.bits >> 3u16) & 1 != 0
    }

    /// IRQ when the counter reaches target.
    pub fn irq_on_target(self) -> (r: bool)
        ensures
            r == bit16(self.bits, 4),
    {
        (self.bits >> 4u16) & 1 != 0
    }

    /// IRQ when the counter reaches 0xFFFF.
    pub fn irq_on_overflow(self) -> (r: bool)
        ensures
            r == bit16(self.bits, 5),
    {
        (self.bits >> 5u16) & 1 != 0
    }

    /// IRQ repeat mode.
    pub fn irq_repeat(self) -> (r: bool)
        ensures
            r == bit16(self.bits, 6),
    {
        (self.bits >> 6u16) & 1 != 0
    }

    /// IRQ toggle mode.
    pub fn irq_toggle(self) -> (r: bool)
        ensures
            r == bit16(self.bits, 7),
    {
        (self.bits >> 7u16) & 1 != 0
    }

    /// Clock source. Meaning depends on timer index.
    pub fn clock_source(self) -> (r: ClockSource)
        ensures
            r == (match (self.bits >> 8u16) & 3 {
                0 => ClockSource::Source0,
                1 => ClockSource::Source1,
                2 => ClockSource::Source2,
                _ => ClockSource::Source3,
            }),
    {
        match (self.bits >> 8u16) & 3 {
            0 => ClockSource::Source0,
            1 => ClockSource::Source1,
            2 => ClockSource::Source2,
            _ => ClockSource::Source3,
        }
    }

    /// Interrupt request line status: 0 = request, 1 = no request.
    pub fn irq_request(self) -> (r: bool)
        ensures
            r == bit16(self.bits, 10),
    {
        (self.bits >> 10u16) & 1 != 0
    }

    /// Latched when the counter reaches target; cleared after mode read.
    pub fn reached_target(self) -> (r: bool)
        ensures
            r == bit16(self.bits, 11),
    {
        (self.bits >> 11u16) & 1 != 0
    }

    /// Latched when the counter reaches 0xFFFF; cleared after mode read.
    pub fn reached_overflow(self) -> (r: bool)
        ensures
            r == bit16(self.bits, 12),
    {
        (self.bits >> 12u16) & 1 != 0
    }

    pub fn set_reached_target(&mut self, v: bool)
        ensures
            final(self).bits == (if v {
                old(self).bits | 0x800u16
            } else {
                old(self).bits & !0x800u16
            }),
    {
        self.bits = if v {
            self.bits | 0x800u16
        } else {
            self.bits & !0x800u16
        };
    }

    pub fn set_reached_overflow(&mut self, v: bool)
        ensures
            final(self).bits == (if v {
                old(self).bits | 0x1000u16
            } else {
                old(self).bits & !0x1000u16
            }),
    {
        self.bits = if v {
            self.bits | 0x1000u16
        } else {
            self.bits & !0x1000u16
        };
    }
}

impl Default for TimerMode {
    fn default() -> (r: Self)
        ensures
            r.bits == 0,
    {
        TimerMode { bits: 0 }
    }
}

impl Default for Timer {
    fn default() -> (r: Self)
        ensures
            r.counter == 0,
            r.mode.bits == 0,
            r.target == 0,
    {
        Timer { counter: 0, mode: TimerMode { bits: 0 }, target: 0 }
    }
}

impl Default for TimerController {
    fn default() -> (r: Self)
        ensures
            forall|i: int|
                0 <= i < 3 ==> r.timers[i].counter == 0 && r.timers[i].mode.bits == 0
                    && r.timers[i].target == 0,
    {
        let t = Timer { counter: 0, mode: TimerMode { bits: 0 }, target: 0 };
        TimerController { timers: [t; TIMERS] }
    }
}

/// Whether the word address `a` names a register of the three timers:
/// counter (+0), mode (+4) or target (+8) of timer `a / 0x10`.
pub open spec fn timer_register(a: u32) -> bool {
    a < 0x30 && a % 0x10 != 0xC
}

impl View for TimerController {
    type V = TimerController;

    open spec fn view(&self) -> TimerController {
        *self
    }
}

impl Mmio for TimerController {
    open spec fn read_defined(m: Self, addr: u32, len: nat) -> bool {
        timer_register(addr & !3u32) && (addr & 3u32) + len <= 4
    }

    open spec fn register(m: Self, addr: u32) -> u32 {
        let t = m.timers[(addr / 0x10) as int];
        if addr % 0x10 == 0 {
            t.counter as u32
        } else if addr % 0x10 == 4 {
            t.mode.bits as u32
        } else {
            t.target as u32
        }
    }

    /// Reading the mode clears the reached flags.
    open spec fn after_read(m: Self, addr: u32) -> Self {
        if addr % 0x10 == 4 {
            let t = m.timers[(addr / 0x10) as int];
            let mode = TimerMode { bits: t.mode.bits & !REACHED_FLAGS };
            TimerController { timers: spec_array_update(m.timers, (addr / 0x10) as int, Timer { mode, ..t }) }
        } else {
            m
        }
    }

    open spec fn write_defined(m: Self, addr: u32, value: Seq<u8>) -> bool {
        timer_register(addr & !3u32) && (addr & 3u32) + value.len() <= 4
    }

    /// Writing the mode resets the counter, sets the IRQ request flag (no
    /// request) and clears the reached flags.
    open spec fn after_write(m: Self, addr: u32, word: u32) -> Self {
        let t = m.timers[(addr / 0x10) as int];
        let new_t = if addr % 0x10 == 0 {
            Timer { counter: word as u16, ..t }
        } else if addr % 0x10 == 4 {
            Timer {
                counter: 0,
                mode: TimerMode { bits: ((word as u16) | IRQ_REQUEST) & !REACHED_FLAGS },
                ..t
            }
        } else {
            Timer { target: word as u16, ..t }
        };
        TimerController { timers: spec_array_update(m.timers, (addr / 0x10) as int, new_t) }
    }

    fn read(&mut self, dest: &mut [u8], addr: u32) {
        let a: u32 = addr & !3u32;
        let off: u32 = addr & 3u32;
        let timer: usize = (a / 0x10) as usize;
        let reg: u32 = a % 0x10;
        let val: u32 = if reg == 0 {
            self.timers[timer].counter as u32
        } else if reg == 4 {
            let mut t = self.timers[timer];
            let v: u32 = t.mode.bits as u32;
            t.mode.bits = t.mode.bits & !REACHED_FLAGS;
            self.timers[timer] = t;
            v
        } else {
            self.timers[timer].target as u32
        };
        copy_lanes(dest, val, off);
        proof {
            if reg == 4 {
                assert(self.timers =~= Self::after_read(*old(self), a).timers);
            }
        }
    }

    fn write(&mut self, addr: u32, value: &[u8]) {
        let a: u32 = addr & !3u32;
        let off: u32 = addr & 3u32;
        let timer: usize = (a / 0x10) as usize;
        let reg: u32 = a % 0x10;
        let current: u32 = if reg == 0 {
            self.timers[timer].counter as u32
        } else if reg == 4 {
            self.timers[timer].mode.bits as u32
        } else {
            self.timers[timer].target as u32
        };
        let val: u32 = merge_lanes(current, off, value);
        if reg == 0 {
            self.timers[timer].counter = val as u16;
        } else if reg == 4 {
            self.timers[timer].counter = 0;
            self.timers[timer].mode = TimerMode { bits: ((val as u16) | IRQ_REQUEST) & !REACHED_FLAGS };
        } else {
            self.timers[timer].target = val as u16;
        }
        proof {
            assert(self.timers =~= Self::after_write(*old(self), a, val).timers);
        }
    }
}


/// Reading the mode of a timer gives its mode and leaves both reached flags of
/// that timer clear; the other timers are untouched.
pub proof fn law_mode_read_clears_reached(m: TimerController, i: int)
    requires
        0 <= i < 3,
    ensures
        TimerController::register(m, (i * 0x10 + 4) as u32) == m.timers[i].mode.bits as u32,
        TimerController::after_read(m, (i * 0x10 + 4) as u32).timers[i].mode.bits & REACHED_FLAGS == 0,
        forall|j: int|
            0 <= j < 3 && j != i ==> TimerController::after_read(m, (i * 0x10 + 4) as u32).timers[j]
                == m.timers[j],
{
    let bits = m.timers[i].mode.bits;
    assert(bits & !REACHED_FLAGS & REACHED_FLAGS == 0) by (bit_vector);
}

/// What is written to the counter or the target of a timer is read back (as
/// 16 bits); a write to the mode reads back with the IRQ request flag set and
/// the reached flags clear, and resets the counter. A write reaches one timer
/// only.
pub proof fn law_write_read_back(m: TimerController, i: int, reg: u32, word: u32)
    requires
        0 <= i < 3,
        reg == 0 || reg == 4 || reg == 8,
    ensures
        reg != 4 ==> TimerController::register(
            TimerController::after_write(m, (i * 0x10 + reg) as u32, word),
            (i * 0x10 + reg) as u32,
        ) == (word as u16) as u32,
        reg == 4 ==> TimerController::register(
            TimerController::after_write(m, (i * 0x10 + reg) as u32, word),
            (i * 0x10 + reg) as u32,
        ) == ((((word as u16) | IRQ_REQUEST) & !REACHED_FLAGS) as u32),
        reg == 4 ==> TimerController::after_write(m, (i * 0x10 + reg) as u32, word).timers[i].counter
            == 0,
        forall|j: int|
            0 <= j < 3 && j != i ==> TimerController::after_write(
                m,
                (i * 0x10 + reg) as u32,
                word,
            ).timers[j] == m.timers[j],
{
}

} // verus!
