//! A virtual machine and disassembler for SLEDE8, a toy architecture with
//! sixteen 8-bit registers, 4096 bytes of memory and fixed-width 16-bit
//! instructions.

pub mod assembly;
pub mod debugger;
pub mod emulator;
pub mod inspect;
pub mod loader;
pub mod parser;
pub mod text;
pub mod theorems;
pub mod word;
