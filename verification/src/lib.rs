//! A RISC-V hardware-thread emulator core: instruction decoding and execution.

pub mod alu;
pub mod cpu;
pub mod encoding;
pub mod hart;
pub mod instruction;
pub mod memory;
pub mod theorems;
