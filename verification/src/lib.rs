//! A single-hart RV64 instruction-set simulator: a sparse physical memory
//! model, a pure instruction decoder, and an interpreter core with a small
//! machine-mode CSR file and a UART transmit window.

pub mod bits;
pub mod cpu;
pub mod decoder;
pub mod laws;
pub mod mem;
