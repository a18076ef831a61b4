//! A functional simulator for the execution model of a massively parallel
//! accelerator: a hierarchy of compute units hosting thread blocks, warps and
//! lanes, with occupancy analysis, pluggable warp-scheduling policies, and an
//! analytical cost model for multi-device interconnects and collectives.

pub mod cluster;
pub mod executor;
pub mod gpu;
pub mod interconnect;
pub mod kernel;
pub mod kernels;
pub mod memory;
pub mod occupancy;
pub mod rat;
pub mod scheduler;
pub mod sm;
pub mod tensor_core;
pub mod warp;

use vstd::prelude::*;

verus! {

} // verus!
