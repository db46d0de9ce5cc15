//! A small x86 tracer: it lays out a PE image in memory, describes how an
//! emulator is prepared to run it, records one step per executed instruction
//! (its disassembly and the register file), and turns the recorded trace into
//! the lines that a terminal viewer shows.

pub mod image;
pub mod regs;
pub mod text;
pub mod disasm;
pub mod setup;
pub mod list;
