//! System calls, over contexts that the kernel provides.

pub mod access;
pub mod malloc;
pub mod mman;
pub mod stat;
pub mod unistd;
