//! A PlayStation (PSX) emulator core: the MIPS R3000A CPU with its system
//! coprocessor, the memory bus, and the hardware devices mapped on it.

pub mod bits;
pub mod cpu;
pub mod devices;
pub mod dma;
pub mod render;
pub mod interconnect;
pub mod mem;
pub mod run;
