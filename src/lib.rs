//! An emulator for a small 16-bit register machine: eight general registers,
//! a program counter, a condition register and 65536 words of memory, with a
//! memory-mapped keyboard and a handful of console traps.
pub mod isa;
pub mod machine;
pub mod exec;
pub mod laws;
