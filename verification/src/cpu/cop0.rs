use vstd::prelude::*;

use vstd::array::spec_array_update;

verus! {

broadcast use vstd::array::group_array_axioms;

/// The status register (SR) of the system coprocessor, as a 32-bit word.
///
/// Bits: 0 IEc, 1 KUc, 2 IEp, 3 KUp, 4 IEo, 5 KUo, 8..16 IM, 16 IsC, 22 BEV.
#[derive(Debug, Clone, Copy, PartialEq, Eq, Structural)]
pub struct Status {
    pub bits: u32,
}

/// The cause register of the system coprocessor, as a 32-bit word.
///
/// Bits: 2..7 ExcCode, 8..16 IP, 31 BD.
#[derive(Debug, Clone, Copy, PartialEq, Eq, Structural)]
pub struct Cause {
    pub bits: u32,
}

impl Status {
    pub open spec fn spec_iec(self) -> bool {
        self.bits & 0x1 != 0
    }

    pub open spec fn spec_im(self) -> u8 {
        ((self.bits >> 8u32) & 0xFF) as u8
    }

    pub open spec fn spec_isc(self) -> bool {
        (self.bits >> 16u32) & 0x1 != 0
    }

    pub open spec fn spec_bev(self) -> bool {
        (self.bits >> 22u32) & 0x1 != 0
    }

    /// Current interrupt enable.
    #[verifier::when_used_as_spec(spec_iec)]
    pub fn iec(self) -> (r: bool)
        ensures
            r == self.spec_iec(),
    {
        self.bits & 0x1 != 0
    }

    /// Interrupt mask.
    #[verifier::when_used_as_spec(spec_im)]
    pub fn im(self) -> (r: u8)
        ensures
            r == self.spec_im(),
    {
        ((self.bits >> 8u32) & 0xFF) as u8
    }

    /// Isolate cache: stores do not reach memory.
    #[verifier::when_used_as_spec(spec_isc)]
    pub fn isc(self) -> (r: bool)
        ensures
            r == self.spec_isc(),
    {
        (self.bits >> 16u32) & 0x1 != 0
    }

    /// Boot exception vectors in ROM.
    #[verifier::when_used_as_spec(spec_bev)]
    pub fn bev(self) -> (r: bool)
        ensures
            r == self.spec_bev(),
    {
        (self.bits >> 22u32) & 0x1 != 0
    }
}

impl Cause {
    pub open spec fn spec_excode(self) -> u8 {
        ((self.bits >> 2u32) & 0x1F) as u8
    }

    pub open spec fn spec_ip(self) -> u8 {
        ((self.bits >> 8u32) & 0xFF) as u8
    }

    pub open spec fn spec_bd(self) -> bool {
        (self.bits >> 31u32) & 0x1 != 0
    }

    /// Exception code of the last exception.
    #[verifier::when_used_as_spec(spec_excode)]
    pub fn excode(self) -> (r: u8)
        ensures
            r == self.spec_excode(),
    {
        ((self.bits >> 2u32) & 0x1F) as u8
    }

    /// Interrupts pending.
    #[verifier::when_used_as_spec(spec_ip)]
    pub fn ip(self) -> (r: u8)
        ensures
            r == self.spec_ip(),
    {
        ((self.bits >> 8u32) & 0xFF) as u8
    }

    /// The last exception hit an instruction in a branch delay slot.
    #[verifier::when_used_as_spec(spec_bd)]
    pub fn bd(self) -> (r: bool)
        ensures
            r == self.spec_bd(),
    {
        (self.bits >> 31u32) & 0x1 != 0
    }
}

/// Simplified system coprocessor (COP0) with the registers the PSX uses.
#[derive(Debug, Clone, Copy)]
pub struct Cop0 {
    pub regs: [u32; 32],
}

/// CPU exceptions, each with its hardware exception code.
#[derive(Debug, Clone, Copy, PartialEq, Eq, Structural)]
pub enum Exception {
    Interrupt,
    UnalignedLoad { bad_vaddr: u32 },
    UnalignedStore { bad_vaddr: u32 },
    InstructionBus { bad_vaddr: u32 },
    DataBus { bad_vaddr: u32 },
    Syscall,
    Break,
    ReservedInstruction,
    Overflow,
}

impl Exception {
    /// The exception code written to the cause register.
    pub open spec fn code(self) -> u8 {
        match self {
            Exception::Interrupt => 0x00,
            Exception::UnalignedLoad { .. } => 0x04,
            Exception::UnalignedStore { .. } => 0x05,
            Exception::InstructionBus { .. } => 0x06,
            Exception::DataBus { .. } => 0x07,
            Exception::Syscall => 0x08,
            Exception::Break => 0x09,
            Exception::ReservedInstruction => 0x0A,
            Exception::Overflow => 0x0C,
        }
    }

    /// The faulting address that the exception carries, if any.
    pub open spec fn bad_vaddr(self) -> Option<u32> {
        match self {
            Exception::UnalignedLoad { bad_vaddr } => Some(bad_vaddr),
            Exception::UnalignedStore { bad_vaddr } => Some(bad_vaddr),
            Exception::InstructionBus { bad_vaddr } => Some(bad_vaddr),
            Exception::DataBus { bad_vaddr } => Some(bad_vaddr),
            _ => None,
        }
    }

    /// Exception code of this exception.
    pub fn discriminant(self) -> (r: u8)
        ensures
            r == self.code(),
    {
        match self {
            Exception::Interrupt => 0x00,
            Exception::UnalignedLoad { .. } => 0x04,
            Exception::UnalignedStore { .. } => 0x05,
            Exception::InstructionBus { .. } => 0x06,
            Exception::DataBus { .. } => 0x07,
            Exception::Syscall => 0x08,
            Exception::Break => 0x09,
            Exception::ReservedInstruction => 0x0A,
            Exception::Overflow => 0x0C,
        }
    }
}

pub const BAD_VADDR_IDX: usize = 8;
pub const STATUS_IDX: usize = 12;
pub const CAUSE_IDX: usize = 13;
pub const EPC_IDX: usize = 14;

/// Status after reset: BEV set, everything else clear.
pub const STATUS_RESET: u32 = 0x0040_0000;

/// Exception vector when BEV is set (ROM).
pub const EXCEPTION_VECTOR_ROM: u32 = 0xBFC0_0180;

/// Exception vector when BEV is clear (RAM).
pub const EXCEPTION_VECTOR_RAM: u32 = 0x8000_0080;

/// The status word after an exception: the IE/KU stack (bits 0..6) is pushed
/// by two bits, the current pair becomes zero, the other bits are kept.
pub open spec fn status_push(sr: u32) -> u32 {
    (sr & !0x3Fu32) | (((sr & 0x3Fu32) << 2u32) & 0x3Fu32)
}

/// The status word after a return from exception: the IE/KU stack is popped by
/// two bits, the old pair (bits 4..6) is kept, the other bits are kept.
pub open spec fn status_pop(sr: u32) -> u32 {
    (sr & !0x3Fu32) | ((sr & 0x3Fu32) & 0x30u32) | (((sr & 0x3Fu32) >> 2u32) & 0xFu32)
}

/// The cause word with the BD flag and the exception code replaced.
pub open spec fn cause_with(cause: u32, bd: bool, excode: u8) -> u32 {
    (cause & !0x8000_007Cu32) | ((excode as u32 & 0x1F) << 2u32) | (if bd { 0x8000_0000u32 } else { 0u32 })
}

/// The cause word with hardware interrupt lane 2 set or cleared.
pub open spec fn cause_with_hw_irq(cause: u32, active: bool) -> u32 {
    if active {
        cause | 0x400u32
    } else {
        cause & !0x400u32
    }
}

impl Cop0 {
    pub open spec fn spec_status(&self) -> Status {
        Status { bits: self.regs[STATUS_IDX as int] }
    }

    pub open spec fn spec_cause(&self) -> Cause {
        Cause { bits: self.regs[CAUSE_IDX as int] }
    }


    #[verifier::when_used_as_spec(spec_status)]
    pub fn status(&self) -> (r: Status)
        ensures
            r == self.spec_status(),
    {
        Status { bits: self.regs[STATUS_IDX] }
    }

    #[verifier::when_used_as_spec(spec_cause)]
    pub fn cause(&self) -> (r: Cause)
        ensures
            r == self.spec_cause(),
    {
        Cause { bits: self.regs[CAUSE_IDX] }
    }

    pub open spec fn spec_exception_handler(&self) -> u32 {
        if self.spec_status().spec_bev() {
            EXCEPTION_VECTOR_ROM
        } else {
            EXCEPTION_VECTOR_RAM
        }
    }

    /// Address of the exception vector, chosen by SR.BEV.
    #[verifier::when_used_as_spec(spec_exception_handler)]
    pub fn exception_handler(&self) -> (r: u32)
        ensures
            r == self.spec_exception_handler(),
    {
        if self.status().bev() {
            EXCEPTION_VECTOR_ROM
        } else {
            EXCEPTION_VECTOR_RAM
        }
    }

    /// The coprocessor after entering `exception` raised at `fault_pc`.
    pub open spec fn spec_entered(self, exception: Exception, fault_pc: u32, in_delay_slot: bool) -> Cop0 {
        let epc = if in_delay_slot {
            fault_pc.wrapping_sub(4)
        } else {
            fault_pc
        };
        let r1 = spec_array_update(self.regs, EPC_IDX as int, epc);
        let r2 = spec_array_update(
            r1,
            CAUSE_IDX as int,
            cause_with(self.regs[CAUSE_IDX as int], in_delay_slot, exception.code()),
        );
        let r3 = match exception.bad_vaddr() {
            Some(a) => spec_array_update(r2, BAD_VADDR_IDX as int, a),
            None => r2,
        };
        Cop0 { regs: spec_array_update(r3, STATUS_IDX as int, status_push(self.regs[STATUS_IDX as int])) }
    }

    /// The coprocessor with hardware interrupt lane 2 driven to `active`.
    pub open spec fn spec_with_hw_irq(self, active: bool) -> Cop0 {
        Cop0 {
            regs: spec_array_update(
                self.regs,
                CAUSE_IDX as int,
                cause_with_hw_irq(self.regs[CAUSE_IDX as int], active),
            ),
        }
    }

    /// Enter an exception: save EPC, record the cause and the bad address,
    /// and push the IE/KU stack of the status register.
    pub fn exception_enter(&mut self, exception: Exception, fault_pc: u32, in_delay_slot: bool)
        ensures
            final(self).regs[EPC_IDX as int] == (if in_delay_slot {
                fault_pc.wrapping_sub(4)
            } else {
                fault_pc
            }),
            final(self).regs[CAUSE_IDX as int] == cause_with(
                old(self).regs[CAUSE_IDX as int],
                in_delay_slot,
                exception.code(),
            ),
            final(self).regs[BAD_VADDR_IDX as int] == (match exception.bad_vaddr() {
                Some(a) => a,
                None => old(self).regs[BAD_VADDR_IDX as int],
            }),
            final(self).regs[STATUS_IDX as int] == status_push(old(self).regs[STATUS_IDX as int]),
            forall|i: int|
                0 <= i < 32 && i != EPC_IDX && i != CAUSE_IDX && i != BAD_VADDR_IDX && i
                    != STATUS_IDX ==> final(self).regs[i] == old(self).regs[i],
            *final(self) == old(self).spec_entered(exception, fault_pc, in_delay_slot),
    {
        self.regs[EPC_IDX] = if in_delay_slot {
            fault_pc.wrapping_sub(4)
        } else {
            fault_pc
        };

        let cause: u32 = self.regs[CAUSE_IDX];
        let code: u8 = exception.discriminant();
        let bd: u32 = if in_delay_slot { 0x8000_0000u32 } else { 0u32 };
        self.regs[CAUSE_IDX] = (cause & !0x8000_007Cu32) | ((code as u32 & 0x1F) << 2u32) | bd;

        match exception {
            Exception::UnalignedLoad { bad_vaddr }
            | Exception::UnalignedStore { bad_vaddr }
            | Exception::InstructionBus { bad_vaddr }
            | Exception::DataBus { bad_vaddr } => {
                self.regs[BAD_VADDR_IDX] = bad_vaddr;
            },
            _ => {},
        }

        let sr: u32 = self.regs[STATUS_IDX];
        self.regs[STATUS_IDX] = (sr & !0x3Fu32) | (((sr & 0x3Fu32) << 2u32) & 0x3Fu32);
        proof {
            assert(self.regs =~= old(self).spec_entered(exception, fault_pc, in_delay_slot).regs);
        }
    }

    /// Return from exception: pop the IE/KU stack of the status register.
    pub fn exception_leave(&mut self)
        ensures
            final(self).regs[STATUS_IDX as int] == status_pop(old(self).regs[STATUS_IDX as int]),
            forall|i: int|
                0 <= i < 32 && i != STATUS_IDX ==> final(self).regs[i] == old(self).regs[i],
    {
        let sr: u32 = self.regs[STATUS_IDX];
        let low6: u32 = sr & 0x3Fu32;
        self.regs[STATUS_IDX] = (sr & !0x3Fu32) | (low6 & 0x30u32) | ((low6 >> 2u32) & 0xFu32);
    }

    pub open spec fn spec_interrupt_pending(&self) -> bool {
        self.spec_status().spec_iec() && (self.spec_cause().spec_ip() & self.spec_status().spec_im())
            != 0
    }

    /// An interrupt is taken when IEc is set and a pending line is unmasked.
    #[verifier::when_used_as_spec(spec_interrupt_pending)]
    pub fn interrupt_pending(&self) -> (r: bool)
        ensures
            r == self.spec_interrupt_pending(),
    {
        let iec = self.status().iec();
        let ip: u8 = self.cause().ip();
        let im: u8 = self.status().im();
        iec && ((ip & im) != 0)
    }

    /// Drive the hardware interrupt lane (IP bit 2) that the PSX uses.
    pub fn set_hw_irq(&mut self, active: bool)
        ensures
            final(self).regs[CAUSE_IDX as int] == cause_with_hw_irq(
                old(self).regs[CAUSE_IDX as int],
                active,
            ),
            forall|i: int|
                0 <= i < 32 && i != CAUSE_IDX ==> final(self).regs[i] == old(self).regs[i],
            *final(self) == old(self).spec_with_hw_irq(active),
    {
        let cause: u32 = self.regs[CAUSE_IDX];
        if active {
            self.regs[CAUSE_IDX] = cause | 0x400u32;
        } else {
            self.regs[CAUSE_IDX] = cause & !0x400u32;
        }
        proof {
            assert(self.regs =~= old(self).spec_with_hw_irq(active).regs);
        }
    }
}


impl Default for Cop0 {
    /// Reset state: Status.BEV = 1, everything else 0.
    fn default() -> (r: Self)
        ensures
            forall|i: int| 0 <= i < 32 && i != STATUS_IDX ==> r.regs[i] == 0,
            r.regs[STATUS_IDX as int] == STATUS_RESET,
    {
        let mut regs = [0u32; 32];
        regs[STATUS_IDX] = STATUS_RESET;
        Cop0 { regs }
    }
}


/// Returning from an exception restores the interrupt-enable and mode bits
/// that were in force when it was taken (the current and previous IE/KU
/// pairs); the status bits above the IE/KU stack are left as they were.
pub proof fn law_leave_restores_mode(c: Cop0, exception: Exception, fault_pc: u32, in_delay_slot: bool)
    ensures
        status_pop(c.spec_entered(exception, fault_pc, in_delay_slot).regs[STATUS_IDX as int])
            & !0x30u32 == c.regs[STATUS_IDX as int] & !0x30u32,
{
    let sr = c.regs[STATUS_IDX as int];
    assert(c.spec_entered(exception, fault_pc, in_delay_slot).regs[STATUS_IDX as int] == status_push(sr));
    assert(status_pop(status_push(sr)) & !0x30u32 == sr & !0x30u32) by (bit_vector);
}

/// An exception handler starts in kernel mode with interrupts disabled, so no
/// interrupt is pending right after an exception was entered; the exception
/// code and the delay-slot flag are readable from the cause register.
pub proof fn law_entered_state(c: Cop0, exception: Exception, fault_pc: u32, in_delay_slot: bool)
    ensures
        !c.spec_entered(exception, fault_pc, in_delay_slot).spec_status().spec_iec(),
        !c.spec_entered(exception, fault_pc, in_delay_slot).spec_interrupt_pending(),
        c.spec_entered(exception, fault_pc, in_delay_slot).regs[STATUS_IDX as int] & 0x2u32 == 0,
        c.spec_entered(exception, fault_pc, in_delay_slot).spec_cause().spec_excode()
            == exception.code(),
        c.spec_entered(exception, fault_pc, in_delay_slot).spec_cause().spec_bd() == in_delay_slot,
        c.spec_entered(exception, fault_pc, in_delay_slot).spec_exception_handler()
            == c.spec_exception_handler(),
{
    let sr = c.regs[STATUS_IDX as int];
    let cause = c.regs[CAUSE_IDX as int];
    let code = exception.code();
    let e = c.spec_entered(exception, fault_pc, in_delay_slot);
    assert(e.regs[STATUS_IDX as int] == status_push(sr));
    assert(e.regs[CAUSE_IDX as int] == cause_with(cause, in_delay_slot, code));
    assert(code < 32);
    assert(code < 32 ==> {
        &&& status_push(sr) & 0x1u32 == 0
        &&& status_push(sr) & 0x2u32 == 0
        &&& (status_push(sr) >> 22u32) & 0x1 == (sr >> 22u32) & 0x1
        &&& ((cause_with(cause, true, code) >> 2u32) & 0x1F) as u8 == code
        &&& ((cause_with(cause, false, code) >> 2u32) & 0x1F) as u8 == code
        &&& (cause_with(cause, true, code) >> 31u32) & 0x1 != 0
        &&& (cause_with(cause, false, code) >> 31u32) & 0x1 == 0
    }) by (bit_vector);
}

/// Driving the hardware interrupt lane high makes an interrupt pending
/// exactly when interrupts are enabled and that lane is unmasked, or another
/// unmasked lane was already pending; the other pending lanes are kept.
pub proof fn law_hw_irq_pending(c: Cop0, active: bool)
    ensures
        c.spec_with_hw_irq(active).spec_status() == c.spec_status(),
        c.spec_with_hw_irq(active).spec_cause().spec_ip() & !4u8 == c.spec_cause().spec_ip() & !4u8,
        c.spec_with_hw_irq(active).spec_cause().spec_ip() & 4u8 == (if active { 4u8 } else { 0u8 }),
        active && c.spec_status().spec_iec() && c.spec_status().spec_im() & 4u8 != 0
            ==> c.spec_with_hw_irq(active).spec_interrupt_pending(),
        !active && c.spec_cause().spec_ip() & !4u8 == 0
            ==> !c.spec_with_hw_irq(active).spec_interrupt_pending(),
{
    let cause = c.regs[CAUSE_IDX as int];
    let w = c.spec_with_hw_irq(active);
    assert(w.regs[CAUSE_IDX as int] == cause_with_hw_irq(cause, active));
    assert(w.regs[STATUS_IDX as int] == c.regs[STATUS_IDX as int]);
    let im = c.spec_status().spec_im();
    assert({
        &&& (((cause | 0x400u32) >> 8u32) & 0xFF) as u8 & !4u8 == (((cause >> 8u32) & 0xFF) as u8) & !4u8
        &&& (((cause & !0x400u32) >> 8u32) & 0xFF) as u8 & !4u8 == (((cause >> 8u32) & 0xFF) as u8) & !4u8
        &&& (((cause | 0x400u32) >> 8u32) & 0xFF) as u8 & 4u8 == 4u8
        &&& (((cause & !0x400u32) >> 8u32) & 0xFF) as u8 & 4u8 == 0u8
        &&& im & 4u8 != 0 ==> ((((cause | 0x400u32) >> 8u32) & 0xFF) as u8) & im != 0
        &&& (((cause >> 8u32) & 0xFF) as u8) & !4u8 == 0 ==> ((((cause & !0x400u32) >> 8u32) & 0xFF) as u8) & im == 0
    }) by (bit_vector);
}

} // verus!
