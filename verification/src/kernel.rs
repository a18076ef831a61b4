//! Kernel definitions and launch configuration.
//!
//! A kernel is a function that every thread executes, identified by its
//! thread/block coordinates. A launch pairs a kernel with a grid of thread
//! blocks and a per-block resource declaration. The thread function's
//! behaviour is captured by the `ThreadFunc` trait: its `effect` spec is
//! the mathematical meaning of one thread's execution, and the executor's
//! contract is stated as a fold of that effect over the launch's threads.

use vstd::prelude::*;

verus! {

use crate::memory::HBM;

broadcast use vstd::string::group_string_axioms;

/// 3D dimension triple used for grid and block sizes.
#[derive(Debug, Clone, Copy, PartialEq, Eq, Structural)]
pub struct Dim3 {
    pub x: u32,
    pub y: u32,
    pub z: u32,
}

impl Dim3 {
    /// Total number of threads/blocks spanned by this dimension, as a
    /// mathematical integer (no overflow).
    pub open spec fn spec_size(&self) -> int {
        self.x * self.y * self.z
    }

    pub fn new(x: u32, y: u32, z: u32) -> (d: Dim3)
        ensures
            d == (Dim3 { x, y, z }),
    {
        Dim3 { x, y, z }
    }

    /// Convenience constructor for 1D configs.
    pub fn x(x: u32) -> (d: Dim3)
        ensures
            d == (Dim3 { x, y: 1u32, z: 1u32 }),
    {
        Dim3 { x, y: 1, z: 1 }
    }

    /// Total number of threads/blocks in this dimension.
    pub fn size(&self) -> (n: u32)
        requires
            self.spec_size() <= u32::MAX,
        ensures
            n == self.spec_size(),
    {
        proof {
            assert(self.x * self.y >= 0 && self.x * self.y * self.z >= 0) by (nonlinear_arith);
            assert(self.z > 0 ==> self.x * self.y <= self.x * self.y * self.z) by (nonlinear_arith);
            assert(self.z == 0 ==> self.x * self.y * self.z == 0) by (nonlinear_arith);
        }
        if self.z == 0 {
            return 0;
        }
        let xy = self.x * self.y;
        xy * self.z
    }
}

/// Configuration for launching a kernel: the grid of blocks, the threads
/// per block, and the per-block resource declaration used by the
/// occupancy analyzer.
#[derive(Debug, Clone, Copy, PartialEq, Eq, Structural)]
pub struct LaunchConfig {
    pub grid_dim: Dim3,
    pub block_dim: Dim3,
    /// Registers used per thread (0 = untracked).
    pub regs_per_thread: u32,
    /// Shared memory bytes per block (0 = none).
    pub smem_per_block: u32,
    /// Optional synthetic per-block delay in milliseconds, for viewers
    /// polling the live metrics; 0 = run at full speed.
    pub delay_ms: u32,
}

impl LaunchConfig {
    pub fn new(grid_dim: Dim3, block_dim: Dim3) -> (c: LaunchConfig)
        ensures
            c == (LaunchConfig {
                grid_dim,
                block_dim,
                regs_per_thread: 0u32,
                smem_per_block: 0u32,
                delay_ms: 0u32,
            }),
    {
        LaunchConfig { grid_dim, block_dim, regs_per_thread: 0, smem_per_block: 0, delay_ms: 0 }
    }

    /// Declare the kernel's per-thread register and per-block shared
    /// memory usage.
    pub fn with_resources(self, regs_per_thread: u32, smem_per_block: u32) -> (c: LaunchConfig)
        ensures
            c == (LaunchConfig { regs_per_thread, smem_per_block, ..self }),
    {
        LaunchConfig { regs_per_thread, smem_per_block, ..self }
    }

    /// Declare a synthetic per-block delay in milliseconds.
    pub fn with_delay(self, delay_ms: u32) -> (c: LaunchConfig)
        ensures
            c == (LaunchConfig { delay_ms, ..self }),
    {
        LaunchConfig { delay_ms, ..self }
    }

    /// Total number of thread blocks in the grid.
    pub fn num_blocks(&self) -> (n: u32)
        requires
            self.grid_dim.spec_size() <= u32::MAX,
        ensures
            n == self.grid_dim.spec_size(),
    {
        self.grid_dim.size()
    }

    /// Total number of threads per block.
    pub fn threads_per_block(&self) -> (n: u32)
        requires
            self.block_dim.spec_size() <= u32::MAX,
        ensures
            n == self.block_dim.spec_size(),
    {
        self.block_dim.size()
    }
}

/// Per-thread coordinates passed into the kernel function. The memories a
/// thread may touch (the block's shared-memory buffer and the device
/// memory) are handed to `ThreadFunc::run` alongside it.
#[derive(Debug, Clone, Copy, PartialEq, Eq, Structural)]
pub struct ThreadCtx {
    pub thread_idx: Dim3,
    pub block_idx: Dim3,
    pub block_dim: Dim3,
    pub grid_dim: Dim3,
}

impl ThreadCtx {
    /// Flat 1D global thread index:
    /// `block_idx.x * block_dim.x + thread_idx.x`.
    pub fn global_id(&self) -> (r: u32)
        requires
            self.block_idx.x * self.block_dim.x + self.thread_idx.x <= u32::MAX,
        ensures
            r == self.block_idx.x * self.block_dim.x + self.thread_idx.x,
    {
        proof {
            assert(self.block_idx.x * self.block_dim.x >= 0) by (nonlinear_arith);
        }
        self.block_idx.x * self.block_dim.x + self.thread_idx.x
    }
}

/// A kernel's thread function: the code every thread executes.
///
/// `effect` is the specification of one thread's execution: given the
/// thread's coordinates, the block's shared memory and the device memory,
/// it yields the two memories after the thread ran. `run` is the
/// executable body and must realise exactly that effect.
pub trait ThreadFunc: Sized {
    /// The mathematical effect of one thread on (shared memory, device
    /// memory).
    spec fn effect(&self, ctx: ThreadCtx, smem: Seq<u8>, gmem: Map<usize, u8>) -> (
        Seq<u8>,
        Map<usize, u8>,
    );

    /// Execute one thread.
    fn run(&self, ctx: &ThreadCtx, smem: &mut Vec<u8>, gmem: &mut HBM)
        ensures
            (final(smem)@, final(gmem)@) == self.effect(*ctx, old(smem)@, old(gmem)@),
            final(gmem).size_bytes == old(gmem).size_bytes,
            final(gmem).bandwidth_bps == old(gmem).bandwidth_bps,
    ;
}

/// A kernel: a named thread function executed by every thread in the
/// launch grid.
pub struct Kernel<F> {
    pub name: String,
    pub func: F,
}

impl<F: ThreadFunc> Kernel<F> {
    pub fn new(name: &str, func: F) -> (k: Kernel<F>)
        ensures
            k.name@ == name@,
            k.func == func,
    {
        Kernel { name: name.to_string(), func }
    }
}

} // verus!
