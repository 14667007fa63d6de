//! Verified core of the axiomos robotics kernel.
//!
//! Every module holds executable code whose contracts are proved: the motor
//! control link ([`link`]), time keeping ([`time`]), virtual memory ([`vmem`]),
//! user memory ([`usermem`]), paths and file errors ([`vfs`]), system calls
//! ([`syscall`]), the Raspberry Pi 5 drivers ([`platform`]), page tables,
//! exceptions and interrupts ([`arch`]), the way to the actuators
//! ([`actuation`]), the hardware bench ([`bench`]) and firmware tables
//! ([`acpi`]).
//!
//! The library reads no register and takes no lock. Where the kernel alternates
//! input or output with decisions, a state machine here says what is to be done
//! next and is told what came of it; register accesses come back as values.

use vstd::prelude::*;

pub mod abi;
pub mod acpi;
pub mod actuation;
pub mod arch;
pub mod bench;
pub mod bytes;
pub mod link;
pub mod platform;
pub mod syscall;
pub mod time;
pub mod usermem;
pub mod vfs;
pub mod vmem;

verus! {

} // verus!
