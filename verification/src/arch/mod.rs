//! The AArch64 and x86-64 sides of the kernel, as far as they decide and
//! compute. Registers, instructions and raw memory stay with the embedding
//! program.

pub mod boot;
pub mod context;
pub mod cpu;
pub mod dtb;
pub mod exceptions;
pub mod gic;
pub mod idt;
pub mod interrupts;
pub mod mm;
pub mod paging;
pub mod phys;
pub mod psci;
pub mod smp;
pub mod x86_64;
