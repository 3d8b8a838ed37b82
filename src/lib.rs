//! A user-mode emulator core for a 32-bit RISC-V processor: an address map
//! over loaded segments, a memory that fetches little-endian words through it,
//! an instruction decoder and a CPU that executes one instruction per step.

pub mod cpu;
pub mod decode;
pub mod load;
pub mod memory;
