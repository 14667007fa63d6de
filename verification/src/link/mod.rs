//! The UART control link between the kernel and the motor controller.

pub mod codec;
pub mod motor;
pub mod ring;
pub mod session;
pub mod watchdog;
pub mod tx;
pub mod handoff;
pub mod installer;
