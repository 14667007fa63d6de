//! Clock conversions, deadlines and periodic releases.

pub mod convert;
pub mod deadline;
pub mod periodic;
