use vstd::prelude::*;

use crate::bits::{lemma_wrapping, wrap32};
use crate::cpu::ins::decode_spec;
use crate::cpu::{Cpu, Exception, Opcode};
use crate::devices::word_of;
use crate::interconnect::{load_defined, load_spec, Bus, BusError, BusErrorKind, BusModel};

verus! {

/// An instruction of a decoded block, or the exception that ends the block.
#[derive(Debug, Clone, Copy, PartialEq, Eq, Structural)]
pub enum Operation {
    Instruction { pc: u32, in_delay_slot: bool, ins: u32, op: Opcode },
    Break { pc: u32, in_delay_slot: bool, cause: Exception },
}

/// The exception of a failed instruction fetch.
pub open spec fn fetch_exception(e: BusError) -> Exception {
    match e.kind {
        BusErrorKind::UnalignedAddr => Exception::UnalignedLoad { bad_vaddr: e.bad_vaddr },
        _ => Exception::InstructionBus { bad_vaddr: e.bad_vaddr },
    }
}

/// The block decoded from `pc` on, and the bus after the fetches. At most
/// `limit` instructions, one more for the delay slot of a branch in last
/// place; a failed fetch, a reserved instruction, SYSCALL and BREAK end the
/// block with the exception they raise, and the delay slot ends it too.
pub open spec fn decode_rec(b: BusModel, pc: u32, pending: bool, limit: usize) -> (
    Seq<Operation>,
    BusModel,
)
    decreases limit,
{
    if limit == 0 && !pending {
        (Seq::empty(), b)
    } else {
        let (r, b1) = load_spec(b, pc, 4);
        match r {
            Err(e) => (
                seq![Operation::Break { pc, in_delay_slot: pending, cause: fetch_exception(e) }],
                b1,
            ),
            Ok(bytes) => {
                let ins = word_of(bytes);
                match decode_spec(ins) {
                    None => (
                        seq![
                            Operation::Break {
                                pc,
                                in_delay_slot: pending,
                                cause: Exception::ReservedInstruction,
                            },
                        ],
                        b1,
                    ),
                    Some(op) => {
                        if op == Opcode::Syscall {
                            (
                                seq![
                                    Operation::Break {
                                        pc,
                                        in_delay_slot: pending,
                                        cause: Exception::Syscall,
                                    },
                                ],
                                b1,
                            )
                        } else if op == Opcode::Break {
                            (
                                seq![
                                    Operation::Break {
                                        pc,
                                        in_delay_slot: pending,
                                        cause: Exception::Break,
                                    },
                                ],
                                b1,
                            )
                        } else {
                            let head = Operation::Instruction {
                                pc,
                                in_delay_slot: pending,
                                ins,
                                op,
                            };
                            if pending {
                                (seq![head], b1)
                            } else {
                                let (rest, b2) = decode_rec(
                                    b1,
                                    pc.wrapping_add(4),
                                    op.spec_has_branch_delay(),
                                    (limit - 1) as usize,
                                );
                                (seq![head] + rest, b2)
                            }
                        }
                    },
                }
            },
        }
    }
}

/// Whether the bus handles every fetch of the block.
pub open spec fn decode_defined(b: BusModel, pc: u32, pending: bool, limit: usize) -> bool
    decreases limit,
{
    if limit == 0 && !pending {
        true
    } else {
        load_defined(b, pc, 4) && {
            let (r, b1) = load_spec(b, pc, 4);
            match r {
                Err(_) => true,
                Ok(bytes) => {
                    let ins = word_of(bytes);
                    match decode_spec(ins) {
                        Some(op) => {
                            if op == Opcode::Syscall || op == Opcode::Break || pending {
                                true
                            } else {
                                decode_defined(
                                    b1,
                                    pc.wrapping_add(4),
                                    op.spec_has_branch_delay(),
                                    (limit - 1) as usize,
                                )
                            }
                        },
                        None => true,
                    }
                },
            }
        }
    }
}

/// Decode a block from the PC of `cpu` into `output`.
/// Size is limited to `limit`, but may be `limit + 1` in case of `limit`
/// element is branch/jump.
pub fn decode_block(output: &mut Vec<Operation>, cpu: &Cpu, bus: &mut Bus, limit: usize)
    requires
        old(bus)@.wf(),
        decode_defined(old(bus)@, cpu.pc, false, limit),
    ensures
        (final(output)@, final(bus)@) == decode_rec(old(bus)@, cpu.pc, false, limit),
        final(bus)@.wf(),
{
    let mut limit = limit;
    let mut pc = cpu.pc;
    let mut pending_delay_slot = false;
    let ghost full = decode_rec(bus@, cpu.pc, false, limit);

    output.clear();
    loop
        invariant_except_break
            decode_defined(bus@, pc, pending_delay_slot, limit),
            full.0 == output@ + decode_rec(bus@, pc, pending_delay_slot, limit).0,
            full.1 == decode_rec(bus@, pc, pending_delay_slot, limit).1,
        invariant
            bus@.wf(),
        ensures
            (output@, bus@) == full,
        decreases limit, (if pending_delay_slot { 1int } else { 0int }),
    {
        if limit == 0 && !pending_delay_slot {
            assert(output@ =~= output@ + Seq::<Operation>::empty());
            break;
        }
        let fetched = bus.load::<4>(pc);
        let ins = match fetched {
            Ok(bytes) => crate::devices::le_word(bytes),
            Err(e) => {
                let cause = if e.kind == BusErrorKind::UnalignedAddr {
                    Exception::UnalignedLoad { bad_vaddr: e.bad_vaddr }
                } else {
                    Exception::InstructionBus { bad_vaddr: e.bad_vaddr }
                };
                output.push(Operation::Break { pc, in_delay_slot: pending_delay_slot, cause });
                break;
            },
        };
        let op = match Opcode::decode(ins) {
            Some(op) => op,
            None => {
                output.push(
                    Operation::Break {
                        pc,
                        in_delay_slot: pending_delay_slot,
                        cause: Exception::ReservedInstruction,
                    },
                );
                break;
            },
        };
        if op == Opcode::Syscall {
            output.push(
                Operation::Break { pc, in_delay_slot: pending_delay_slot, cause: Exception::Syscall },
            );
            break;
        } else if op == Opcode::Break {
            output.push(
                Operation::Break { pc, in_delay_slot: pending_delay_slot, cause: Exception::Break },
            );
            break;
        } else {
            output.push(Operation::Instruction { pc, in_delay_slot: pending_delay_slot, ins, op });
        }
        if pending_delay_slot {
            break;
        }
        if op.has_branch_delay() {
            pending_delay_slot = true;
        }
        pc = pc.wrapping_add(4);
        limit = limit - 1;
    }
}


/// The address of an entry of a block.
pub open spec fn op_pc(o: Operation) -> u32 {
    match o {
        Operation::Instruction { pc, .. } => pc,
        Operation::Break { pc, .. } => pc,
    }
}

/// Whether an entry of a block sits in a delay slot.
pub open spec fn op_in_delay_slot(o: Operation) -> bool {
    match o {
        Operation::Instruction { in_delay_slot, .. } => in_delay_slot,
        Operation::Break { in_delay_slot, .. } => in_delay_slot,
    }
}

proof fn lemma_wrap_add(x: int, y: int)
    ensures
        wrap32(wrap32(x) + y) == wrap32(x + y),
{
    vstd::arithmetic::div_mod::lemma_add_mod_noop_right(y, x, 0x1_0000_0000);
    assert(wrap32(x) as int == x % 0x1_0000_0000);
}

/// The shape of a decoded block: entry `i` is at the start address plus
/// `4 i` (modulo 2^32); only the last entry may be an exception; only the
/// first entry sits in a delay slot, when the block starts in one, and only
/// the last one otherwise; and there are at most `limit + 1` entries (one
/// when the block starts in a delay slot).
pub proof fn law_block_shape(b: BusModel, pc: u32, pending: bool, limit: usize)
    ensures
        ({
            let ops = decode_rec(b, pc, pending, limit).0;
            &&& ops.len() <= limit + 1
            &&& pending ==> ops.len() <= 1
            &&& forall|i: int| 0 <= i < ops.len() ==> #[trigger] op_pc(ops[i]) == wrap32(pc + 4 * i)
            &&& forall|i: int| 0 <= i < ops.len() - 1 ==> #[trigger] ops[i] is Instruction
            &&& forall|i: int| 0 <= i < ops.len() - 1 ==> !op_in_delay_slot(#[trigger] ops[i])
            &&& ops.len() > 0 ==> op_in_delay_slot(ops[0]) == pending
        }),
    decreases limit,
{
    let ops = decode_rec(b, pc, pending, limit).0;
    if limit == 0 && !pending {
        return;
    }
    let (r, b1) = load_spec(b, pc, 4);
    assert(wrap32(pc + 4 * 0) == pc);
    if let Ok(bytes) = r {
        let ins = word_of(bytes);
        if let Some(op) = decode_spec(ins) {
            if op != Opcode::Syscall && op != Opcode::Break && !pending {
                let next = pc.wrapping_add(4);
                lemma_wrapping(pc, 4);
                let rest = decode_rec(b1, next, op.spec_has_branch_delay(), (limit - 1) as usize).0;
                law_block_shape(b1, next, op.spec_has_branch_delay(), (limit - 1) as usize);
                assert forall|i: int| 0 <= i < ops.len() implies #[trigger] op_pc(ops[i]) == wrap32(pc + 4 * i) by {
                    if i > 0 {
                        assert(ops[i] == rest[i - 1]);
                        lemma_wrap_add(pc + 4, 4 * (i - 1));
                        assert(pc + 4 + 4 * (i - 1) == pc + 4 * i);
                    }
                }
                assert forall|i: int| 0 <= i < ops.len() - 1 implies #[trigger] ops[i] is Instruction by {
                    if i > 0 {
                        assert(ops[i] == rest[i - 1]);
                    }
                }
                assert forall|i: int| 0 <= i < ops.len() - 1 implies !op_in_delay_slot(#[trigger] ops[i]) by {
                    if i > 0 {
                        assert(ops[i] == rest[i - 1]);
                    }
                }
            }
        }
    }
}

} // verus!
