//! A verified model of a 32-bit RISC-V (RV32I) processor with a flat simulated
//! memory, memory-mapped terminal output and a small proxy kernel.
pub mod decode;
pub mod memory;
pub mod semantics;
pub mod machine;
pub mod laws;
pub mod encode;
pub mod instruction_laws;
