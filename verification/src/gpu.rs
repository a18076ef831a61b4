//! Top-level single-device simulator.
//!
//! Models an accelerator as a collection of compute units connected to a
//! shared memory hierarchy (second-level cache + device DRAM).

use vstd::prelude::*;

verus! {

use crate::executor::{ExecutionStats, KernelExecutor, spec_run_grid, launch_fits};
use crate::kernel::{Kernel, LaunchConfig, ThreadFunc};
use crate::memory::{HBM, L2Cache};
use crate::occupancy::SmConfig;
use crate::scheduler::{AnyScheduler, SchedulingPolicy, WarpScheduler};
use crate::sm::{SmResourceUsage, StreamingMultiprocessor};

pub struct GPU {
    /// All compute units on the device.
    pub sms: Vec<StreamingMultiprocessor>,
    /// Shared second-level cache.
    pub l2_cache: L2Cache,
    /// Main device memory.
    pub hbm: HBM,
    /// Compute-unit hardware configuration, used for occupancy analysis.
    pub sm_config: SmConfig,
}

impl GPU {
    pub fn new(num_sms: usize, l2_size_bytes: u64, hbm_size_bytes: u64, sm_config: SmConfig)
        -> (g: GPU)
        ensures
            g.sms@.len() == num_sms,
            forall|i: int|
                0 <= i < num_sms ==> (#[trigger] g.sms@[i]).id == i && g.sms@[i].resource_usage
                    == SmResourceUsage::spec_zero(),
            g.l2_cache.size_bytes == l2_size_bytes,
            g.l2_cache@ == Map::<usize, u8>::empty(),
            g.hbm.size_bytes == hbm_size_bytes,
            g.hbm@ == Map::<usize, u8>::empty(),
            g.sm_config == sm_config,
    {
        let mut sms: Vec<StreamingMultiprocessor> = Vec::new();
        let mut id: usize = 0;
        while id < num_sms
            invariant
                id <= num_sms,
                sms@.len() == id,
                forall|i: int|
                    0 <= i < id ==> (#[trigger] sms@[i]).id == i && sms@[i].resource_usage
                        == SmResourceUsage::spec_zero(),
            decreases num_sms - id,
        {
            sms.push(StreamingMultiprocessor::new(id));
            id = id + 1;
        }
        GPU {
            sms,
            l2_cache: L2Cache::new(l2_size_bytes),
            hbm: HBM::new(hbm_size_bytes),
            sm_config,
        }
    }

    /// A Hopper-class device: 132 units, ~50 MB of second-level cache,
    /// 80 GB of device memory.
    pub fn h100() -> (g: GPU)
        ensures
            g.sms@.len() == 132,
            forall|i: int|
                0 <= i < 132 ==> (#[trigger] g.sms@[i]).resource_usage
                    == SmResourceUsage::spec_zero(),
            g.hbm@ == Map::<usize, u8>::empty(),
            g.sm_config == SmConfig::h100(),
    {
        GPU::new(132, 50 * 1024 * 1024, 80 * 1024 * 1024 * 1024, SmConfig::h100())
    }

    /// Launch a kernel on this device with the given scheduling policy.
    pub fn launch_kernel<F: ThreadFunc>(
        &mut self,
        kernel: &Kernel<F>,
        config: &LaunchConfig,
        policy: SchedulingPolicy,
    ) -> (stats: ExecutionStats)
        requires
            old(self).sms@.len() >= 1,
            launch_fits(*config, old(self).sm_config),
            config.grid_dim.spec_size() * ((config.block_dim.spec_size() + 31) / 32)
                <= u64::MAX,
        ensures
            stats.blocks_executed == config.grid_dim.spec_size(),
            stats.warps_executed == config.grid_dim.spec_size() * ((config.block_dim.spec_size()
                + 31) / 32),
            stats.threads_executed == config.grid_dim.spec_size()
                * config.block_dim.spec_size(),
            stats.scheduling_policy@ == policy.spec_name(),
            final(self).sms@.len() == old(self).sms@.len(),
            forall|i: int|
                0 <= i < final(self).sms@.len() ==> (#[trigger] final(self).sms@[i]).resource_usage
                    == SmResourceUsage::spec_zero(),
            final(self).hbm@ == spec_run_grid::<F, AnyScheduler>(
                kernel.func,
                *config,
                policy.spec_initial_state(),
                0,
                old(self).hbm@,
                0,
                config.grid_dim.spec_size(),
            ).1,
            final(self).l2_cache == old(self).l2_cache,
            final(self).sm_config == old(self).sm_config,
            final(self).hbm.size_bytes == old(self).hbm.size_bytes,
    {
        let sm_config = self.sm_config;
        let mut executor = KernelExecutor::new(policy, sm_config);
        proof {
            crate::scheduler::lemma_initial_state_compatible(
                policy,
                crate::executor::spec_block_slots(
                    (config.block_dim.spec_size() + 31) / 32,
                    0,
                ),
            );
        }
        executor.launch(self, kernel, config)
    }
}

} // verus!
