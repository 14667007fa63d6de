//! The Raspberry Pi 5 platform: register layouts and the decisions of its
//! drivers. Registers are read and written by the embedding program.

pub mod control_link;
pub mod gpio;
pub mod memory_map;
pub mod mmio;
pub mod pl011;
pub mod poll;
pub mod pwm;
pub mod rearm;
pub mod rearm_pass;
pub mod rp1_irq;
pub mod uart;
