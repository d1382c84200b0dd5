use vstd::prelude::*;

use super::gp0::{CmdBuf, GpuModel, Packet, PacketModel};
use super::{
    stat_with_bit, Gpu, GpuDmaDirection, GpuStat, DISPLAY_DISABLED_BIT, GPUSTAT_RESET,
    INTERRUPT_REQUEST_BIT,
};

verus! {

/// GP1 (display control) commands.
#[derive(Debug, Clone, Copy, PartialEq, Eq, Structural)]
pub enum Gp1Opcode {
    ResetGpu,
    ResetCommandBuffer,
    AcknowledgeInterrupt,
    DisplayEnable,
    DmaDirection,
    DisplayVramStart,
    DisplayHorizontalRange,
    DisplayVerticalRange,
    DisplayMode,
    GetGpuInfo,
}

impl Gp1Opcode {
    /// The command with the given code, if any.
    pub fn from_repr(op: u8) -> (r: Option<Gp1Opcode>)
        ensures
            r == gp1_opcode(op),
    {
        match op {
            0x00 => Some(Gp1Opcode::ResetGpu),
            0x01 => Some(Gp1Opcode::ResetCommandBuffer),
            0x02 => Some(Gp1Opcode::AcknowledgeInterrupt),
            0x03 => Some(Gp1Opcode::DisplayEnable),
            0x04 => Some(Gp1Opcode::DmaDirection),
            0x05 => Some(Gp1Opcode::DisplayVramStart),
            0x06 => Some(Gp1Opcode::DisplayHorizontalRange),
            0x07 => Some(Gp1Opcode::DisplayVerticalRange),
            0x08 => Some(Gp1Opcode::DisplayMode),
            0x10 => Some(Gp1Opcode::GetGpuInfo),
            _ => None,
        }
    }
}

pub open spec fn gp1_opcode(op: u8) -> Option<Gp1Opcode> {
    if op == 0x00 {
        Some(Gp1Opcode::ResetGpu)
    } else if op == 0x01 {
        Some(Gp1Opcode::ResetCommandBuffer)
    } else if op == 0x02 {
        Some(Gp1Opcode::AcknowledgeInterrupt)
    } else if op == 0x03 {
        Some(Gp1Opcode::DisplayEnable)
    } else if op == 0x04 {
        Some(Gp1Opcode::DmaDirection)
    } else if op == 0x05 {
        Some(Gp1Opcode::DisplayVramStart)
    } else if op == 0x06 {
        Some(Gp1Opcode::DisplayHorizontalRange)
    } else if op == 0x07 {
        Some(Gp1Opcode::DisplayVerticalRange)
    } else if op == 0x08 {
        Some(Gp1Opcode::DisplayMode)
    } else if op == 0x10 {
        Some(Gp1Opcode::GetGpuInfo)
    } else {
        None
    }
}

/// The GPU after GP1 command `cmd`: reset (status and command buffer),
/// command buffer reset, interrupt acknowledge, display enable (bit 0 set
/// disables), DMA direction (bits 0..2). The display area and mode commands
/// change nothing.
pub open spec fn processed(g: GpuModel, cmd: u32) -> GpuModel {
    let op = (cmd >> 24u32) as u8;
    if op == 0x00 {
        GpuModel { gpustat: GPUSTAT_RESET, packet: PacketModel::Nop, ..g }
    } else if op == 0x01 {
        GpuModel { packet: PacketModel::Nop, ..g }
    } else if op == 0x02 {
        GpuModel { gpustat: stat_with_bit(g.gpustat, INTERRUPT_REQUEST_BIT, false), ..g }
    } else if op == 0x03 {
        GpuModel { gpustat: stat_with_bit(g.gpustat, DISPLAY_DISABLED_BIT, cmd & 1 != 0), ..g }
    } else if op == 0x04 {
        GpuModel { gpustat: (g.gpustat & !0x6000_0000u32) | ((cmd & 3) << 29u32), ..g }
    } else {
        g
    }
}

/// Execute a GP1 command.
pub fn process(gpu: &mut Gpu, cmd: u32)
    ensures
        final(gpu)@ == processed(old(gpu)@, cmd),
{
    let op: u8 = (cmd >> 24u32) as u8;
    let opcode = match Gp1Opcode::from_repr(op) {
        Some(o) => o,
        None => return,
    };
    match opcode {
        Gp1Opcode::ResetGpu => {
            gpu.gpustat = GpuStat::default();
            gpu.cmdbuf = CmdBuf::default();
        },
        Gp1Opcode::ResetCommandBuffer => {
            gpu.cmdbuf = CmdBuf::default();
        },
        Gp1Opcode::AcknowledgeInterrupt => gpu.gpustat.set_bit(INTERRUPT_REQUEST_BIT, false),
        Gp1Opcode::DisplayEnable => gpu.gpustat.set_bit(DISPLAY_DISABLED_BIT, cmd & 1 != 0),
        Gp1Opcode::DmaDirection => {
            let d = cmd & 3;
            proof {
                crate::bits::lemma_masks(cmd);
            }
            gpu.gpustat.set_dma_direction(
                if d == 0 {
                    GpuDmaDirection::Off
                } else if d == 1 {
                    GpuDmaDirection::Fifo
                } else if d == 2 {
                    GpuDmaDirection::CpuToGp0
                } else {
                    GpuDmaDirection::VramToCpu
                },
            )
        },
        _ => {},
    }
}

} // verus!
