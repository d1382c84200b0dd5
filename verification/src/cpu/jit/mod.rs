//! Decoding of instruction blocks for compilation.

pub mod decoder;
