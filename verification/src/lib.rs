//! Values and rules for exporting Rust functions as VPI tasks: Verilog bit
//! vectors and their literals, clocks, simulation times, the conversions of
//! values to and from the simulator's formats, and the registry of the
//! functions that register tasks when the simulator starts.
use vstd::prelude::*;

pub mod bits;
pub mod bitvec;
pub mod clk;
pub mod error;
pub mod literal;
pub mod marker;
pub mod registry;
mod sealed;
pub mod simulator;
pub mod task;
pub mod text;
pub mod time;
pub mod unicode;
pub mod value;

pub use bitvec::BitVector;
pub use clk::{Clk, ClkSchedule};
pub use error::VpiError;
pub use marker::{Input, InputOutput, Output};
pub use registry::{VpiFunctionCollection, VpiFunctionNode};
pub use simulator::Context;
pub use task::VpiTaskResult;
pub use time::VpiTime;

verus! {

/// Result relating to a VPI call.
pub type Result<T> = core::result::Result<T, VpiError>;

} // verus!
