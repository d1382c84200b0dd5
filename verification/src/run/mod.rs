use vstd::prelude::*;

pub mod decoder;
pub mod interpreter;

use crate::cpu::{Cop0, Cpu, Exception, PendingJump, PendingLoad};
use crate::interconnect::{Bus, BusModel};
use decoder::{decode_defined, decode_rec, Operation};

verus! {

broadcast use vstd::array::group_array_axioms;

/// Outcome of running a block.
#[derive(Debug, Clone, Copy, PartialEq, Eq, Structural)]
pub struct ExecutionResult {
    /// Address of the last instruction run (or the one that raised).
    pub last_pc: u32,
    /// Whether that instruction sat in a branch delay slot.
    pub last_in_delay_slot: bool,
    /// The exception that stopped the block, if any.
    pub exception: Option<Exception>,
}

impl Default for ExecutionResult {
    fn default() -> (r: Self)
        ensures
            r == (ExecutionResult { last_pc: 0, last_in_delay_slot: false, exception: None }),
    {
        ExecutionResult { last_pc: 0, last_in_delay_slot: false, exception: None }
    }
}

impl Cpu {
    /// The load delay slot names a register.
    pub open spec fn wf(self) -> bool {
        self.pending_load.dest < 32
    }
}

/// A way to run a decoded block of instructions on the CPU and the bus.
pub trait Executor: Sized {
    /// Whether the executor handles the block in this state.
    spec fn run_defined(&self, ops: Seq<Operation>, cpu: Cpu, bus: BusModel) -> bool;

    /// What running the block gives: its outcome, the CPU and the bus after it.
    spec fn run_model(&self, ops: Seq<Operation>, cpu: Cpu, bus: BusModel) -> (
        ExecutionResult,
        Cpu,
        BusModel,
    );

    /// Run the block.
    fn run(&mut self, ins_block: &[Operation], cpu: &mut Cpu, bus: &mut Bus) -> (r:
        ExecutionResult)
        requires
            old(self).run_defined(ins_block@, *old(cpu), old(bus)@),
            old(bus)@.wf(),
            old(cpu).wf(),
        ensures
            (r, *final(cpu), final(bus)@) == old(self).run_model(ins_block@, *old(cpu), old(bus)@),
            final(bus)@.wf(),
            final(cpu).wf(),
    ;
}


/// Runs the CPU block after block with an executor.
pub struct CpuExecutor<E> {
    pub cpu: Cpu,
    pub executor: E,
    /// Maximum block size. If the last op is branch delay, block may be max+1
    pub block_size: usize,
    /// Cache of decoded block of ops
    pub block: Vec<Operation>,
}

/// Default maximum block size.
pub const DEFAULT_INS_BLOCK: usize = 4096;

impl<E: Default> Default for CpuExecutor<E> {
    fn default() -> (r: Self)
        ensures
            r.cpu.reset_state(),
            r.block_size == DEFAULT_INS_BLOCK,
    {
        CpuExecutor {
            cpu: Cpu::default(),
            executor: E::default(),
            block_size: DEFAULT_INS_BLOCK,
            block: Vec::with_capacity(DEFAULT_INS_BLOCK + 1),
        }
    }
}

/// The outcome of a block after the interrupt check: a pending interrupt
/// takes the place of the block's own outcome, at its last instruction.
pub open spec fn with_interrupt(ex: ExecutionResult, c: Cpu) -> ExecutionResult {
    if c.cop0.spec_interrupt_pending() {
        ExecutionResult {
            last_pc: ex.last_pc,
            last_in_delay_slot: ex.last_in_delay_slot,
            exception: Some(Exception::Interrupt),
        }
    } else {
        ex
    }
}

/// The CPU after a block with outcome `ex` (after the interrupt check).
///
/// On an exception the coprocessor enters it at the last instruction, the PC
/// goes to the exception vector and the load delay slot is committed (so the
/// handler sees the last load). Otherwise the pending jump is taken if the
/// last instruction was its delay slot, else the PC moves past the last
/// instruction; the pending jump is cleared.
pub open spec fn finish_block(ex: ExecutionResult, c: Cpu) -> Cpu {
    match ex.exception {
        Some(e) => {
            let cop0 = c.cop0.spec_entered(e, ex.last_pc, ex.last_in_delay_slot);
            let c1 = Cpu {
                cop0,
                pc: cop0.spec_exception_handler(),
                pending_load: PendingLoad { dest: 0, value: 0 },
                ..c
            };
            interpreter::commit_load(c1, c.pending_load)
        },
        None => {
            let jump = c.pending_jump;
            Cpu {
                pc: if ex.last_in_delay_slot && jump.happen {
                    jump.target
                } else {
                    ex.last_pc.wrapping_add(4)
                },
                pending_jump: PendingJump { happen: false, target: 0 },
                ..c
            }
        },
    }
}

/// One step of the CPU: decode a block from the PC, run it, drive the
/// hardware interrupt lane from the interrupt controller, and finish the
/// block. Gives the decoded block, the CPU and the bus after the step.
pub open spec fn step_model<E: Executor>(cpu: Cpu, executor: E, block_size: usize, b: BusModel) -> (
    Seq<Operation>,
    Cpu,
    BusModel,
) {
    let (ops, b1) = decode_rec(b, cpu.pc, false, block_size);
    let (ex, c1, b2) = executor.run_model(ops, cpu, b1);
    let c2 = Cpu { cop0: c1.cop0.spec_with_hw_irq(b2.int_ctrl.spec_pending()), ..c1 };
    (ops, finish_block(with_interrupt(ex, c2), c2), b2)
}

/// Whether the bus handles every fetch of the block and the executor the block.
pub open spec fn step_defined<E: Executor>(cpu: Cpu, executor: E, block_size: usize, b: BusModel) -> bool {
    let (ops, b1) = decode_rec(b, cpu.pc, false, block_size);
    &&& cpu.wf()
    &&& b.wf()
    &&& decode_defined(b, cpu.pc, false, block_size)
    &&& executor.run_defined(ops, cpu, b1)
}

impl<E: Executor> CpuExecutor<E> {
    /// Run one block of instructions, then take an interrupt or exception,
    /// or move the PC on.
    pub fn run(&mut self, bus: &mut Bus)
        requires
            step_defined(old(self).cpu, old(self).executor, old(self).block_size, old(bus)@),
        ensures
            (final(self).block@, final(self).cpu, final(bus)@) == step_model(
                old(self).cpu,
                old(self).executor,
                old(self).block_size,
                old(bus)@,
            ),
            final(self).block_size == old(self).block_size,
            final(self).cpu.wf(),
            final(bus)@.wf(),
    {
        decoder::decode_block(&mut self.block, &self.cpu, bus, self.block_size);
        let execution = self.executor.run(self.block.as_slice(), &mut self.cpu, bus);

        let pending = bus.int_ctrl.pending();
        self.cpu.cop0.set_hw_irq(pending);
        // Interrupt changes flow like it's an error in the last op
        let execution = if self.cpu.cop0.interrupt_pending() {
            ExecutionResult {
                last_pc: execution.last_pc,
                last_in_delay_slot: execution.last_in_delay_slot,
                exception: Some(Exception::Interrupt),
            }
        } else {
            execution
        };
        match execution.exception {
            Some(exception) => {
                self.cpu.cop0.exception_enter(
                    exception,
                    execution.last_pc,
                    execution.last_in_delay_slot,
                );
                self.cpu.pc = self.cpu.cop0.exception_handler();

                // Commit, so exception handler could see last load
                let load_delay_slot = self.cpu.pending_load;
                self.cpu.pending_load = PendingLoad { dest: 0, value: 0 };
                self.cpu.gpr[load_delay_slot.dest] = load_delay_slot.value;
                self.cpu.gpr[0] = 0;
            },
            None => {
                let delay_slot = self.cpu.pending_jump;
                self.cpu.pending_jump = PendingJump { happen: false, target: 0 };
                if execution.last_in_delay_slot && delay_slot.happen {
                    self.cpu.pc = delay_slot.target;
                } else {
                    self.cpu.pc = execution.last_pc.wrapping_add(4);
                }
            },
        }
    }
}


/// The CPU after the block of a step ran and the hardware interrupt lane was
/// driven from the interrupt controller, before the interrupt check.
pub open spec fn after_block<E: Executor>(cpu: Cpu, executor: E, block_size: usize, b: BusModel) -> Cpu {
    let (ops, b1) = decode_rec(b, cpu.pc, false, block_size);
    let (ex, c1, b2) = executor.run_model(ops, cpu, b1);
    Cpu { cop0: c1.cop0.spec_with_hw_irq(b2.int_ctrl.spec_pending()), ..c1 }
}

/// An interrupt that is pending and unmasked at the end of a block is taken:
/// the PC goes to the exception vector, the cause register holds the
/// interrupt code, and the handler starts with interrupts disabled.
pub proof fn law_interrupt_taken<E: Executor>(cpu: Cpu, executor: E, block_size: usize, b: BusModel)
    requires
        after_block(cpu, executor, block_size, b).cop0.spec_interrupt_pending(),
    ensures
        step_model(cpu, executor, block_size, b).1.pc == after_block(
            cpu,
            executor,
            block_size,
            b,
        ).cop0.spec_exception_handler(),
        step_model(cpu, executor, block_size, b).1.cop0.spec_cause().spec_excode() == 0,
        !step_model(cpu, executor, block_size, b).1.cop0.spec_status().spec_iec(),
{
    let (ops, b1) = decode_rec(b, cpu.pc, false, block_size);
    let (ex, c1, b2) = executor.run_model(ops, cpu, b1);
    let c2 = after_block(cpu, executor, block_size, b);
    crate::cpu::cop0::law_entered_state(c2.cop0, Exception::Interrupt, ex.last_pc, ex.last_in_delay_slot);
}

} // verus!
