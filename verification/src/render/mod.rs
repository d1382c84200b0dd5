//! Rendering: the drawing primitives, and the logic of a software renderer
//! that keeps its own copy of VRAM.

use vstd::prelude::*;

pub mod software;
pub mod types;

verus! {

/// A rendering backend of the GPU. It keeps a snapshot of a VRAM area for the
/// transfers between VRAM and the CPU.
pub trait GpuBackend {
    /// Blit VRAM area to the local storage. This is done just before VRAM <=> CPU transfer.
    fn take_vram_area_snapshot(&mut self, pos: types::Position, size: types::Size);

    /// Commit local VRAM snapshot back to GPU backend.
    /// Work with area, so the texture won't be overwritten fully, so not cause VRAM incoherency.
    fn commit_vram_snapshot(&self);

    /// Push a pixel into the VRAM snapshot taken via `take_vram_area_snapshot`,
    /// and increment pointer to the next pixel to be written.
    fn push_snapshot_pixel(&mut self, pixel: u16);

    /// Read a pixel from VRAM snapshot taken via `take_vram_area_snapshot`
    /// and move pointer forward to the next pixel (if any have left in the area of snapshot).
    fn pop_snapshot_pixel(&mut self) -> Option<u16>;

    /// Reset state like push/pop counters, etc.
    fn reset(&mut self);
}

} // verus!
