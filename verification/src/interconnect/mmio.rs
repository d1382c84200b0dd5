use vstd::prelude::*;

verus! {

/// The interrupt controller's register range.
pub const IRQ_CTRL_START: u32 = 0x1F80_1070;
pub const IRQ_CTRL_END: u32 = 0x1F80_1078;

/// A memory-mapped register block without registers yet: reads and writes of
/// it are not handled.
#[derive(Debug, Default)]
pub struct Mmio {}

} // verus!
