//! Streaming multiprocessor: the compute unit hosting thread blocks.
//!
//! Each unit carries warp schedulers and tensor cores (one per
//! subpartition), a per-unit shared-memory buffer, and live resource
//! counters updated as blocks are assigned and retired. The counters feed
//! the block scheduler's headroom computation.

use vstd::prelude::*;

verus! {

use crate::tensor_core::TensorCore;
use crate::warp::{Warp, WarpScheduler};

/// Bytes of shared memory per compute unit.
pub const SMEM_SIZE_BYTES: usize = 256 * 1024;

/// Warp schedulers (subpartitions) per compute unit.
pub const WARPS_PER_SM: usize = 4;

/// Live resource consumption on a compute unit, updated as blocks are
/// assigned and retired.
#[derive(Debug, Clone, Copy, PartialEq, Eq, Structural)]
pub struct SmResourceUsage {
    /// Number of thread blocks currently resident on this unit.
    pub active_blocks: u32,
    /// Number of threads currently resident.
    pub used_threads: u32,
    /// Number of warps currently resident.
    pub used_warps: u32,
    /// Bytes of shared memory currently allocated.
    pub used_smem_bytes: u32,
}

impl SmResourceUsage {
    /// All counters zero: no resident block.
    pub open spec fn spec_zero() -> SmResourceUsage {
        SmResourceUsage { active_blocks: 0, used_threads: 0, used_warps: 0, used_smem_bytes: 0 }
    }
}

impl Default for SmResourceUsage {
    fn default() -> (r: SmResourceUsage)
        ensures
            r == SmResourceUsage::spec_zero(),
    {
        SmResourceUsage { active_blocks: 0, used_threads: 0, used_warps: 0, used_smem_bytes: 0 }
    }
}

/// `a - b`, clamped at zero.
pub open spec fn sat_sub_u32(a: u32, b: u32) -> u32 {
    if a >= b {
        (a - b) as u32
    } else {
        0
    }
}

/// One compute unit of the accelerator.
pub struct StreamingMultiprocessor {
    pub id: usize,
    /// Fast on-chip shared memory (programmer-controlled cache).
    pub smem: Vec<u8>,
    /// Warp schedulers, one per subpartition.
    pub warp_schedulers: Vec<WarpScheduler>,
    /// Tensor cores, one per subpartition.
    pub tensor_cores: Vec<TensorCore>,
    /// Live resource usage, updated by the executor as blocks come and go.
    pub resource_usage: SmResourceUsage,
}

impl StreamingMultiprocessor {
    pub fn new(id: usize) -> (sm: StreamingMultiprocessor)
        ensures
            sm.id == id,
            sm.smem@.len() == SMEM_SIZE_BYTES,
            sm.warp_schedulers@.len() == WARPS_PER_SM,
            sm.tensor_cores@.len() == WARPS_PER_SM,
            sm.resource_usage == SmResourceUsage::spec_zero(),
    {
        let smem: Vec<u8> = vec![0u8; SMEM_SIZE_BYTES];
        let mut warp_schedulers: Vec<WarpScheduler> = Vec::new();
        let mut tensor_cores: Vec<TensorCore> = Vec::new();
        let mut i: usize = 0;
        while i < WARPS_PER_SM
            invariant
                i <= WARPS_PER_SM,
                warp_schedulers@.len() == i,
                tensor_cores@.len() == i,
            decreases WARPS_PER_SM - i,
        {
            warp_schedulers.push(WarpScheduler::new());
            tensor_cores.push(TensorCore::new());
            i = i + 1;
        }
        StreamingMultiprocessor {
            id,
            smem,
            warp_schedulers,
            tensor_cores,
            resource_usage: SmResourceUsage {
                active_blocks: 0,
                used_threads: 0,
                used_warps: 0,
                used_smem_bytes: 0,
            },
        }
    }

    /// Allocate resources for a new block.
    pub fn allocate_block(&mut self, threads: u32, warps: u32, smem_bytes: u32) -> (ok: bool)
        requires
            old(self).resource_usage.active_blocks < u32::MAX,
            old(self).resource_usage.used_threads + threads <= u32::MAX,
            old(self).resource_usage.used_warps + warps <= u32::MAX,
            old(self).resource_usage.used_smem_bytes + smem_bytes <= u32::MAX,
        ensures
            ok,
            final(self).resource_usage == (SmResourceUsage {
                active_blocks: (old(self).resource_usage.active_blocks + 1) as u32,
                used_threads: (old(self).resource_usage.used_threads + threads) as u32,
                used_warps: (old(self).resource_usage.used_warps + warps) as u32,
                used_smem_bytes: (old(self).resource_usage.used_smem_bytes + smem_bytes) as u32,
            }),
            final(self).id == old(self).id,
            final(self).smem == old(self).smem,
            final(self).warp_schedulers == old(self).warp_schedulers,
            final(self).tensor_cores == old(self).tensor_cores,
    {
        self.resource_usage.active_blocks = self.resource_usage.active_blocks + 1;
        self.resource_usage.used_threads = self.resource_usage.used_threads + threads;
        self.resource_usage.used_warps = self.resource_usage.used_warps + warps;
        self.resource_usage.used_smem_bytes = self.resource_usage.used_smem_bytes + smem_bytes;
        true
    }

    /// Free resources when a block retires; counters clamp at zero.
    pub fn free_block(&mut self, threads: u32, warps: u32, smem_bytes: u32)
        ensures
            final(self).resource_usage == (SmResourceUsage {
                active_blocks: sat_sub_u32(old(self).resource_usage.active_blocks, 1),
                used_threads: sat_sub_u32(old(self).resource_usage.used_threads, threads),
                used_warps: sat_sub_u32(old(self).resource_usage.used_warps, warps),
                used_smem_bytes: sat_sub_u32(old(self).resource_usage.used_smem_bytes, smem_bytes),
            }),
            final(self).id == old(self).id,
            final(self).smem == old(self).smem,
            final(self).warp_schedulers == old(self).warp_schedulers,
            final(self).tensor_cores == old(self).tensor_cores,
    {
        self.resource_usage.active_blocks = if self.resource_usage.active_blocks >= 1 {
            self.resource_usage.active_blocks - 1
        } else {
            0
        };
        self.resource_usage.used_threads = if self.resource_usage.used_threads >= threads {
            self.resource_usage.used_threads - threads
        } else {
            0
        };
        self.resource_usage.used_warps = if self.resource_usage.used_warps >= warps {
            self.resource_usage.used_warps - warps
        } else {
            0
        };
        self.resource_usage.used_smem_bytes = if self.resource_usage.used_smem_bytes
            >= smem_bytes {
            self.resource_usage.used_smem_bytes - smem_bytes
        } else {
            0
        };
    }

    /// Dispatch a warp to the first idle warp scheduler; false (and no
    /// change) when every scheduler is busy.
    pub fn dispatch_warp(&mut self, warp: Warp) -> (ok: bool)
        ensures
            ok == (exists|i: int|
                0 <= i < old(self).warp_schedulers@.len() && old(
                    self,
                ).warp_schedulers@[i].current_warp is None),
            ok ==> exists|j: int|
                {
                    &&& 0 <= j < old(self).warp_schedulers@.len()
                    &&& old(self).warp_schedulers@[j].current_warp is None
                    &&& (forall|i: int|
                        0 <= i < j ==> !(old(self).warp_schedulers@[i].current_warp is None))
                    &&& final(self).warp_schedulers@ == old(self).warp_schedulers@.update(
                        j,
                        WarpScheduler { current_warp: Some(warp) },
                    )
                },
            !ok ==> final(self).warp_schedulers == old(self).warp_schedulers,
            final(self).id == old(self).id,
            final(self).smem == old(self).smem,
            final(self).tensor_cores == old(self).tensor_cores,
            final(self).resource_usage == old(self).resource_usage,
            final(self).warp_schedulers@.len() == old(self).warp_schedulers@.len(),
    {
        let n = self.warp_schedulers.len();
        let mut i: usize = 0;
        while i < n
            invariant
                i <= n,
                n == self.warp_schedulers@.len(),
                self.id == old(self).id,
                self.smem == old(self).smem,
                self.tensor_cores == old(self).tensor_cores,
                self.resource_usage == old(self).resource_usage,
                self.warp_schedulers == old(self).warp_schedulers,
                forall|j: int|
                    0 <= j < i ==> !(old(self).warp_schedulers@[j].current_warp is None),
            decreases n - i,
        {
            if self.warp_schedulers[i].is_idle() {
                let slot = &mut self.warp_schedulers[i];
                slot.load_warp(warp);
                proof {
                    assert(self.warp_schedulers@ =~= old(self).warp_schedulers@.update(
                        i as int,
                        WarpScheduler { current_warp: Some(warp) },
                    ));
                }
                return true;
            }
            i = i + 1;
        }
        false
    }
}

} // verus!
