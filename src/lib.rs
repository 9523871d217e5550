//! A bridge between a serial telemetry device and its network clients: a decoder for
//! the device's telemetry lines, a latest-value store, a command queue with the wire
//! tokens, and the decisions of the loop that serves the device.
use vstd::prelude::*;

pub mod command;
pub mod frame;
pub mod link;
pub mod page;
pub mod telemetry;
pub mod text;

verus! {

} // verus!
