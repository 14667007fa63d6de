//! Virtual addresses, pages, segments and the reservation of address ranges.

pub mod addr;
pub mod manager;
pub mod segment;
