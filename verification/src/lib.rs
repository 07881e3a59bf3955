//! A verified instruction-set simulator for a 32-bit RISC-V core: the base
//! integer instruction set, CSR access, and word-granularity atomic memory
//! operations, executed against a flat physical address space.

pub mod bits;
pub mod cpu;
pub mod laws;
pub mod mem;
