//! Kernel execution engine.
//!
//! Two levels of scheduling are implemented:
//!
//! 1. Block scheduling: thread blocks are assigned to the compute unit
//!    with the most remaining block headroom relative to the occupancy
//!    limit; ties go to the lowest unit id.
//! 2. Warp scheduling: within each block, warps are ordered by the chosen
//!    policy (LRR, GTO or TwoLevel) and executed in that order, lanes in
//!    ascending index order.
//!
//! Blocks run in lexicographic `(bz, by, bx)` grid order. The launch's
//! whole observable effect on device memory is specified by
//! `spec_run_grid`: a fold of the kernel's per-thread effect over every
//! thread of the launch in exactly that order.

use vstd::prelude::*;

verus! {

use vstd::seq_lib::lemma_fold_left_permutation;
use vstd::seq_lib::commutative_foldl;
use crate::gpu::GPU;
use crate::kernel::{Dim3, Kernel, LaunchConfig, ThreadCtx, ThreadFunc};
use crate::occupancy::{
    KernelResources, OccupancyLimiter, SmConfig, max_blocks_per_sm, min2, occupancy,
    spec_limiter, spec_max_blocks, spec_occupancy, spec_regs_per_block, spec_warps_per_block,
};
use crate::rat::{Rat, rat_le};
use crate::scheduler::{
    AnyScheduler, SchedulingPolicy, WarpScheduler, WarpSlot, WarpState, distinct_idxs,
    warp_idxs,
};
use crate::sm::SmResourceUsage;

broadcast use vstd::seq_lib::group_to_multiset_ensures, vstd::string::group_string_axioms;

/// Statistics collected during a kernel launch.
pub struct ExecutionStats {
    /// Total thread blocks executed.
    pub blocks_executed: u32,
    /// Total warps executed.
    pub warps_executed: u32,
    /// Total threads executed.
    pub threads_executed: u32,
    /// Theoretical occupancy as an exact fraction in [0, 1].
    pub theoretical_occupancy: Rat,
    /// Max blocks allowed per compute unit by the occupancy constraints.
    pub max_blocks_per_sm: u32,
    /// Which resource limited occupancy.
    pub occupancy_limiter: OccupancyLimiter,
    /// Name of the warp scheduling policy used.
    pub scheduling_policy: String,
}

/// Thread (or block) coordinates of a flat index over dimensions `d`,
/// x fastest, z slowest.
pub open spec fn spec_unflatten(flat: int, d: Dim3) -> Dim3 {
    Dim3 {
        x: (flat % (d.x as int)) as u32,
        y: ((flat / (d.x as int)) % (d.y as int)) as u32,
        z: (flat / (d.x as int * d.y as int)) as u32,
    }
}

/// Convert a flat thread index into coordinates over `block_dim`.
pub fn flat_to_dim3(flat: u32, block_dim: Dim3) -> (r: Dim3)
    requires
        block_dim.x >= 1,
        block_dim.y >= 1,
        block_dim.x * block_dim.y <= u32::MAX,
    ensures
        r == spec_unflatten(flat as int, block_dim),
{
    proof {
        assert(block_dim.x * block_dim.y >= 1) by (nonlinear_arith)
            requires
                block_dim.x >= 1 && block_dim.y >= 1,
        ;
    }
    let x = flat % block_dim.x;
    let y = (flat / block_dim.x) % block_dim.y;
    let z = flat / (block_dim.x * block_dim.y);
    Dim3 { x, y, z }
}

/// An all-zero byte buffer of length `n`.
pub open spec fn spec_zeros(n: int) -> Seq<u8> {
    Seq::new(n as nat, |i: int| 0u8)
}

fn zero_vec(n: usize) -> (v: Vec<u8>)
    ensures
        v@ == spec_zeros(n as int),
{
    let mut v: Vec<u8> = Vec::new();
    let mut i: usize = 0;
    while i < n
        invariant
            i <= n,
            v@.len() == i,
            forall|j: int| 0 <= j < i ==> v@[j] == 0u8,
        decreases n - i,
    {
        v.push(0);
        i = i + 1;
    }
    proof {
        assert(v@ =~= spec_zeros(n as int));
    }
    v
}

/// Number of live lanes of warp `w` in a block of `tpb` threads.
pub open spec fn lane_count(w: int, tpb: int) -> int {
    if 32 * w < tpb {
        min2(32 * w + 32, tpb) - 32 * w
    } else {
        0
    }
}

/// Total live lanes over a sequence of warp indices.
pub open spec fn sum_lanes(order: Seq<usize>, tpb: int) -> int
    decreases order.len(),
{
    if order.len() == 0 {
        0
    } else {
        sum_lanes(order.drop_last(), tpb) + lane_count(order.last() as int, tpb)
    }
}

/// The warp slots the executor builds for one block: warp `i` in slot `i`,
/// ages assigned in order from the launch-scoped counter.
pub open spec fn spec_block_slots(nw: int, age0: int) -> Seq<WarpSlot> {
    Seq::new(
        nw as nat,
        |i: int|
            WarpSlot { warp_idx: i as usize, state: WarpState::Eligible, age: (age0 + i) as u64 },
    )
}

/// The kernel's effect folded over the lanes `[start, end)`, in ascending
/// order, threading the block's shared memory and the device memory.
pub open spec fn spec_run_lanes<F: ThreadFunc>(
    f: F,
    bid: Dim3,
    bdim: Dim3,
    gdim: Dim3,
    mems: (Seq<u8>, Map<usize, u8>),
    start: int,
    end: int,
) -> (Seq<u8>, Map<usize, u8>)
    decreases end - start,
{
    if start >= end {
        mems
    } else {
        let ctx = ThreadCtx {
            thread_idx: spec_unflatten(start, bdim),
            block_idx: bid,
            block_dim: bdim,
            grid_dim: gdim,
        };
        spec_run_lanes(f, bid, bdim, gdim, f.effect(ctx, mems.0, mems.1), start + 1, end)
    }
}

/// One warp's lanes: `[32 w, min(32 w + 32, tpb))`.
pub open spec fn spec_run_warp<F: ThreadFunc>(
    f: F,
    bid: Dim3,
    bdim: Dim3,
    gdim: Dim3,
    mems: (Seq<u8>, Map<usize, u8>),
    w: int,
    tpb: int,
) -> (Seq<u8>, Map<usize, u8>) {
    spec_run_lanes(f, bid, bdim, gdim, mems, 32 * w, min2(32 * w + 32, tpb))
}

/// The warps of one block folded in issue order, from position `i` on.
pub open spec fn spec_run_order<F: ThreadFunc>(
    f: F,
    bid: Dim3,
    bdim: Dim3,
    gdim: Dim3,
    mems: (Seq<u8>, Map<usize, u8>),
    order: Seq<usize>,
    tpb: int,
    i: int,
) -> (Seq<u8>, Map<usize, u8>)
    decreases order.len() - i,
{
    if i >= order.len() {
        mems
    } else {
        spec_run_order(
            f,
            bid,
            bdim,
            gdim,
            spec_run_warp(f, bid, bdim, gdim, mems, order[i] as int, tpb),
            order,
            tpb,
            i + 1,
        )
    }
}

/// The scheduler state after recording every issue of `order` from
/// position `i` on.
pub open spec fn spec_record_all<S: WarpScheduler>(v: S::V, order: Seq<usize>, i: int) -> S::V
    decreases order.len() - i,
{
    if i >= order.len() {
        v
    } else {
        spec_record_all::<S>(S::spec_record(v, order[i]), order, i + 1)
    }
}

/// One block's execution: build the warp slots, take the issue order from
/// the scheduler, run every warp's lanes in that order on a fresh
/// zero-filled shared-memory buffer, and record every issue. Yields the
/// scheduler state and device memory afterwards.
pub open spec fn spec_run_block<F: ThreadFunc, S: WarpScheduler>(
    f: F,
    cfg: LaunchConfig,
    bid: Dim3,
    sched: S::V,
    age0: int,
    gmem: Map<usize, u8>,
) -> (S::V, Map<usize, u8>) {
    let tpb = cfg.block_dim.spec_size();
    let nw = (tpb + 31) / 32;
    let slots = spec_block_slots(nw, age0);
    let order = S::spec_order(sched, slots);
    let smem0 = spec_zeros(
        if cfg.smem_per_block >= 1 {
            cfg.smem_per_block as int
        } else {
            1
        },
    );
    let mems = spec_run_order(f, bid, cfg.block_dim, cfg.grid_dim, (smem0, gmem), order, tpb, 0);
    (spec_record_all::<S>(S::spec_promote(sched, slots), order, 0), mems.1)
}

/// The whole launch: blocks in lexicographic `(bz, by, bx)` order, i.e.
/// ascending flat block index with x fastest, threading the scheduler
/// state and the device memory. Yields the scheduler state and device
/// memory after the launch.
pub open spec fn spec_run_grid<F: ThreadFunc, S: WarpScheduler>(
    f: F,
    cfg: LaunchConfig,
    sched: S::V,
    age0: int,
    gmem: Map<usize, u8>,
    b: int,
    nblocks: int,
) -> (S::V, Map<usize, u8>)
    decreases nblocks - b,
{
    if b >= nblocks {
        (sched, gmem)
    } else {
        let nw = (cfg.block_dim.spec_size() + 31) / 32;
        let bid = spec_unflatten(b, cfg.grid_dim);
        let step = spec_run_block::<F, S>(f, cfg, bid, sched, age0 + b * nw, gmem);
        spec_run_grid::<F, S>(f, cfg, step.0, age0, step.1, b + 1, nblocks)
    }
}

/// The launch configuration fits the machine: positive dimensions, stats
/// counters that cannot overflow, and occupancy-analyzer intermediates
/// within `u32`.
pub open spec fn launch_fits(cfg: LaunchConfig, sm: SmConfig) -> bool {
    &&& cfg.block_dim.spec_size() >= 1
    &&& cfg.grid_dim.spec_size() >= 1
    &&& cfg.grid_dim.spec_size() * cfg.block_dim.spec_size() <= u32::MAX
    &&& cfg.regs_per_thread * 32 <= u32::MAX
    &&& cfg.regs_per_thread * 32 + sm.reg_alloc_granularity <= u32::MAX + 1
    &&& spec_regs_per_block(spec_kernel_resources(cfg), sm) <= u32::MAX
    &&& cfg.smem_per_block + sm.smem_alloc_granularity <= u32::MAX + 1
    &&& sm.max_warps >= 1
}

/// The resource profile the executor derives from a launch configuration.
pub open spec fn spec_kernel_resources(cfg: LaunchConfig) -> KernelResources {
    KernelResources {
        threads_per_block: cfg.block_dim.spec_size() as u32,
        regs_per_thread: cfg.regs_per_thread,
        smem_per_block: cfg.smem_per_block,
    }
}

/// Executes kernels on a device, simulating the unit/warp/thread
/// hierarchy.
pub struct KernelExecutor {
    /// The warp scheduler driven by this executor.
    pub scheduler: AnyScheduler,
    /// Hardware configuration used for occupancy analysis.
    pub sm_config: SmConfig,
    /// Monotonically increasing counter for assigning warp ages.
    pub warp_age_counter: u64,
}

// ---------------------------------------------------------------------------
// lane-count arithmetic
// ---------------------------------------------------------------------------

/// `sum_lanes` agrees with a left fold of any addition closure over the
/// same lane counts.
proof fn lemma_sum_lanes_is_fold(s: Seq<usize>, tpb: int, f: spec_fn(int, usize) -> int)
    requires
        forall|acc: int, w: usize| #[trigger] f(acc, w) == acc + lane_count(w as int, tpb),
    ensures
        sum_lanes(s, tpb) == s.fold_left(0, f),
    decreases s.len(),
{
    if s.len() > 0 {
        lemma_sum_lanes_is_fold(s.drop_last(), tpb, f);
    }
}

/// Prefix sums of the canonical warp sequence `0, 1, ..., k-1`.
proof fn lemma_canonical_prefix_sum(k: int, tpb: int)
    requires
        0 <= k <= usize::MAX,
        tpb >= 1,
    ensures
        sum_lanes(Seq::new(k as nat, |i: int| i as usize), tpb) == min2(32 * k, tpb),
    decreases k,
{
    let s = Seq::new(k as nat, |i: int| i as usize);
    if k == 0 {
        assert(sum_lanes(s, tpb) == 0);
    } else {
        let s0 = Seq::new((k - 1) as nat, |i: int| i as usize);
        lemma_canonical_prefix_sum(k - 1, tpb);
        assert(s.drop_last() =~= s0);
        assert(s.last() == (k - 1) as usize);
        assert(lane_count(k - 1, tpb) == min2(32 * k, tpb) - min2(32 * (k - 1), tpb));
    }
}

/// Lane counts are non-negative, so lane sums are too.
proof fn lemma_sum_lanes_nonneg(s: Seq<usize>, tpb: int)
    ensures
        sum_lanes(s, tpb) >= 0,
    decreases s.len(),
{
    if s.len() > 0 {
        lemma_sum_lanes_nonneg(s.drop_last(), tpb);
    }
}

/// Extending a prefix by one warp adds that warp's lane count, and a
/// prefix never exceeds the whole sum.
proof fn lemma_sum_lanes_take(s: Seq<usize>, tpb: int, j: int)
    requires
        0 <= j <= s.len(),
    ensures
        0 <= sum_lanes(s.take(j), tpb) <= sum_lanes(s, tpb),
    decreases s.len() - j,
{
    lemma_sum_lanes_nonneg(s.take(j), tpb);
    if j == s.len() {
        assert(s.take(j) =~= s);
    } else {
        lemma_sum_lanes_take(s, tpb, j + 1);
        assert(s.take(j + 1).drop_last() =~= s.take(j));
        assert(s.take(j + 1).last() == s[j]);
        assert(lane_count(s[j] as int, tpb) >= 0);
    }
}

/// Over a permutation of the block's warps, the lane counts sum to the
/// threads per block, and every prefix sum stays within it.
pub proof fn lemma_order_lane_sums(order: Seq<usize>, tpb: int, nw: int)
    requires
        tpb >= 1,
        nw <= usize::MAX,
        nw == (tpb + 31) / 32,
        order.to_multiset() == Seq::new(nw as nat, |i: int| i as usize).to_multiset(),
    ensures
        sum_lanes(order, tpb) == tpb,
        forall|j: int|
            0 <= j <= order.len() ==> 0 <= sum_lanes(#[trigger] order.take(j), tpb) <= tpb,
{
    let f = (|acc: int, w: usize| acc + lane_count(w as int, tpb));
    let canonical = Seq::new(nw as nat, |i: int| i as usize);
    assert(commutative_foldl(f));
    lemma_sum_lanes_is_fold(order, tpb, f);
    lemma_sum_lanes_is_fold(canonical, tpb, f);
    lemma_fold_left_permutation(order, canonical, f, 0);
    lemma_canonical_prefix_sum(nw, tpb);
    assert(min2(32 * nw, tpb) == tpb);
    assert(sum_lanes(order, tpb) == tpb);
    assert forall|j: int| 0 <= j <= order.len() implies 0 <= sum_lanes(
        #[trigger] order.take(j),
        tpb,
    ) <= tpb by {
        lemma_sum_lanes_take(order, tpb, j);
    }
}

impl KernelExecutor {
    pub fn new(policy: SchedulingPolicy, sm_config: SmConfig) -> (e: KernelExecutor)
        ensures
            e.scheduler@ == policy.spec_initial_state(),
            e.sm_config == sm_config,
            e.warp_age_counter == 0,
            AnyScheduler::spec_name(e.scheduler@) == policy.spec_name(),
    {
        KernelExecutor { scheduler: policy.build(), sm_config, warp_age_counter: 0 }
    }

    /// Find the compute unit with the most remaining block headroom; ties
    /// are broken by the lowest unit id. Falls back to unit 0 when no unit
    /// has headroom (an invariant-violation backstop, not a correctness
    /// case).
    pub fn find_best_sm(&self, gpu: &GPU, max_blocks: u32) -> (r: usize)
        requires
            gpu.sms@.len() >= 1,
        ensures
            r < gpu.sms@.len(),
            (exists|i: int|
                0 <= i < gpu.sms@.len() && (#[trigger] gpu.sms@[i]).resource_usage.active_blocks
                    < max_blocks) ==> {
                &&& gpu.sms@[r as int].resource_usage.active_blocks < max_blocks
                &&& forall|j: int|
                    0 <= j < gpu.sms@.len() && (#[trigger] gpu.sms@[j]).resource_usage.active_blocks
                        < max_blocks ==> gpu.sms@[j].resource_usage.active_blocks
                        > gpu.sms@[r as int].resource_usage.active_blocks || (
                    gpu.sms@[j].resource_usage.active_blocks
                        == gpu.sms@[r as int].resource_usage.active_blocks && r <= j)
            },
            !(exists|i: int|
                0 <= i < gpu.sms@.len() && (#[trigger] gpu.sms@[i]).resource_usage.active_blocks
                    < max_blocks) ==> r == 0,
    {
        let n = gpu.sms.len();
        let mut best: usize = 0;
        let mut found: bool = false;
        let mut i: usize = 0;
        while i < n
            invariant
                i <= n,
                n == gpu.sms@.len(),
                best < n,
                found ==> best < i,
                found ==> gpu.sms@[best as int].resource_usage.active_blocks < max_blocks,
                found ==> forall|j: int|
                    0 <= j < i && (#[trigger] gpu.sms@[j]).resource_usage.active_blocks
                        < max_blocks ==> gpu.sms@[j].resource_usage.active_blocks
                        > gpu.sms@[best as int].resource_usage.active_blocks || (
                    gpu.sms@[j].resource_usage.active_blocks
                        == gpu.sms@[best as int].resource_usage.active_blocks && best <= j),
                !found ==> best == 0,
                !found ==> forall|j: int|
                    0 <= j < i ==> (#[trigger] gpu.sms@[j]).resource_usage.active_blocks
                        >= max_blocks,
            decreases n - i,
        {
            let active = gpu.sms[i].resource_usage.active_blocks;
            if active < max_blocks {
                if !found {
                    best = i;
                    found = true;
                } else if active < gpu.sms[best].resource_usage.active_blocks {
                    // strictly more headroom than the best so far
                    let ghost old_best = best as int;
                    best = i;
                    proof {
                        assert forall|j: int|
                            0 <= j < i + 1 && (#[trigger] gpu.sms@[j]).resource_usage.active_blocks
                                < max_blocks implies gpu.sms@[j].resource_usage.active_blocks
                            > gpu.sms@[best as int].resource_usage.active_blocks || (
                        gpu.sms@[j].resource_usage.active_blocks
                            == gpu.sms@[best as int].resource_usage.active_blocks && best
                            <= j) by {
                            if j < i {
                                assert(gpu.sms@[j].resource_usage.active_blocks
                                    >= gpu.sms@[old_best].resource_usage.active_blocks);
                            }
                        }
                    }
                }
            }
            i = i + 1;
        }
        best
    }

    /// Launch a kernel on a device.
    ///
    /// The statistics cover every block of the grid; every compute unit's
    /// usage counters are zero afterwards; and the device memory
    /// afterwards is exactly the kernel's per-thread effect folded over
    /// all threads of the launch in execution order (`spec_run_grid`).
    pub fn launch<F: ThreadFunc>(
        &mut self,
        gpu: &mut GPU,
        kernel: &Kernel<F>,
        config: &LaunchConfig,
    ) -> (stats: ExecutionStats)
        requires
            old(gpu).sms@.len() >= 1,
            launch_fits(*config, old(self).sm_config),
            old(self).warp_age_counter + config.grid_dim.spec_size() * ((
            config.block_dim.spec_size() + 31) / 32) <= u64::MAX,
            AnyScheduler::spec_compatible(
                old(self).scheduler@,
                spec_block_slots((config.block_dim.spec_size() + 31) / 32, 0),
            ),
        ensures
            stats.blocks_executed == config.grid_dim.spec_size(),
            stats.warps_executed == config.grid_dim.spec_size() * ((config.block_dim.spec_size()
                + 31) / 32),
            stats.threads_executed == config.grid_dim.spec_size()
                * config.block_dim.spec_size(),
            stats.max_blocks_per_sm == spec_max_blocks(
                spec_kernel_resources(*config),
                old(self).sm_config,
            ),
            stats.occupancy_limiter == spec_limiter(
                spec_kernel_resources(*config),
                old(self).sm_config,
            ),
            stats.theoretical_occupancy == spec_occupancy(
                spec_max_blocks(spec_kernel_resources(*config), old(self).sm_config),
                spec_warps_per_block(spec_kernel_resources(*config)),
                old(self).sm_config.max_warps as int,
            ),
            rat_le(Rat { num: 0u128, den: 1u128 }, stats.theoretical_occupancy),
            rat_le(stats.theoretical_occupancy, Rat { num: 1u128, den: 1u128 }),
            stats.scheduling_policy@ == AnyScheduler::spec_name(old(self).scheduler@),
            final(gpu).sms@.len() == old(gpu).sms@.len(),
            forall|i: int|
                0 <= i < final(gpu).sms@.len() ==> (#[trigger] final(gpu).sms@[i]).resource_usage
                    == SmResourceUsage::spec_zero(),
            ({
                let end = spec_run_grid::<F, AnyScheduler>(
                    kernel.func,
                    *config,
                    old(self).scheduler@,
                    old(self).warp_age_counter as int,
                    old(gpu).hbm@,
                    0,
                    config.grid_dim.spec_size(),
                );
                final(gpu).hbm@ == end.1 && final(self).scheduler@ == end.0
            }),
            final(self).warp_age_counter == old(self).warp_age_counter
                + config.grid_dim.spec_size() * ((config.block_dim.spec_size() + 31) / 32),
            final(self).sm_config == old(self).sm_config,
            final(gpu).l2_cache == old(gpu).l2_cache,
            final(gpu).sm_config == old(gpu).sm_config,
            final(gpu).hbm.size_bytes == old(gpu).hbm.size_bytes,
            final(gpu).hbm.bandwidth_bps == old(gpu).hbm.bandwidth_bps,
    {
        let ghost f = kernel.func;
        let ghost cfg = *config;
        let ghost sched0 = self.scheduler@;
        let ghost age0 = self.warp_age_counter as int;
        let ghost gmem0 = gpu.hbm@;

        proof {
            assert(cfg.block_dim.spec_size() <= cfg.grid_dim.spec_size()
                * cfg.block_dim.spec_size() && cfg.grid_dim.spec_size()
                <= cfg.grid_dim.spec_size() * cfg.block_dim.spec_size()) by (nonlinear_arith)
                requires
                    cfg.grid_dim.spec_size() >= 1 && cfg.block_dim.spec_size() >= 1,
            ;
        }
        let policy_name = self.scheduler.name();
        let tpb: u32 = config.threads_per_block();
        let kernel_res = KernelResources {
            threads_per_block: tpb,
            regs_per_thread: config.regs_per_thread,
            smem_per_block: config.smem_per_block,
        };
        proof {
            assert(kernel_res == spec_kernel_resources(cfg));
        }
        let (max_blks, limiter) = max_blocks_per_sm(&kernel_res, &self.sm_config);
        let warps_per_block: u32 = (tpb - 1) / 32 + 1;
        proof {
            assert(warps_per_block == spec_warps_per_block(kernel_res));
            assert(warps_per_block == (tpb + 31) as int / 32);
        }
        let occ = occupancy(max_blks, warps_per_block, self.sm_config.max_warps);

        // Reset every unit's usage counters before the launch.
        let num_sms = gpu.sms.len();
        let mut u: usize = 0;
        while u < num_sms
            invariant
                u <= num_sms,
                num_sms == gpu.sms@.len(),
                forall|k: int|
                    0 <= k < u ==> (#[trigger] gpu.sms@[k]).resource_usage
                        == SmResourceUsage::spec_zero(),
                gpu.l2_cache == old(gpu).l2_cache,
                gpu.sm_config == old(gpu).sm_config,
                gpu.hbm == old(gpu).hbm,
            decreases num_sms - u,
        {
            let unit = &mut gpu.sms[u];
            unit.resource_usage = SmResourceUsage {
                active_blocks: 0,
                used_threads: 0,
                used_warps: 0,
                used_smem_bytes: 0,
            };
            u = u + 1;
        }

        let num_blocks: u32 = config.num_blocks();
        proof {
            // grid components are all positive
            assert(cfg.grid_dim.x >= 1 && cfg.grid_dim.y >= 1 && cfg.grid_dim.z >= 1
                && cfg.grid_dim.x * cfg.grid_dim.y <= cfg.grid_dim.spec_size()
                && cfg.block_dim.x >= 1 && cfg.block_dim.y >= 1 && cfg.block_dim.x
                * cfg.block_dim.y <= cfg.block_dim.spec_size()) by (nonlinear_arith)
                requires
                    cfg.grid_dim.spec_size() >= 1 && cfg.block_dim.spec_size() >= 1
                        && cfg.grid_dim.spec_size() == cfg.grid_dim.x * cfg.grid_dim.y
                        * cfg.grid_dim.z && cfg.block_dim.spec_size() == cfg.block_dim.x
                        * cfg.block_dim.y * cfg.block_dim.z,
            ;
            assert(warps_per_block <= tpb) by (nonlinear_arith)
                requires
                    tpb >= 1 && warps_per_block == (tpb + 31) as int / 32,
            ;
        }

        let mut blocks_executed: u32 = 0;
        let mut warps_executed: u32 = 0;
        let mut threads_executed: u32 = 0;

        let ghost nw = warps_per_block as int;
        let ghost nb = num_blocks as int;

        let ghost canonical_slots = spec_block_slots(nw, 0);

        let mut b: u32 = 0;
        while b < num_blocks
            invariant
                cfg == *config,
                f == kernel.func,
                b <= num_blocks,
                nb == num_blocks as int,
                nw == warps_per_block as int,
                tpb == cfg.block_dim.spec_size(),
                nb == cfg.grid_dim.spec_size(),
                nw == (tpb + 31) as int / 32,
                tpb >= 1,
                nb * tpb <= u32::MAX,
                nw <= tpb,
                cfg.grid_dim.x >= 1 && cfg.grid_dim.y >= 1,
                cfg.grid_dim.x * cfg.grid_dim.y <= u32::MAX,
                cfg.block_dim.x >= 1 && cfg.block_dim.y >= 1,
                cfg.block_dim.x * cfg.block_dim.y <= u32::MAX,
                gpu.sms@.len() == old(gpu).sms@.len() >= 1,
                forall|k: int|
                    0 <= k < gpu.sms@.len() ==> (#[trigger] gpu.sms@[k]).resource_usage
                        == SmResourceUsage::spec_zero(),
                gpu.l2_cache == old(gpu).l2_cache,
                gpu.sm_config == old(gpu).sm_config,
                gpu.hbm.size_bytes == old(gpu).hbm.size_bytes,
                gpu.hbm.bandwidth_bps == old(gpu).hbm.bandwidth_bps,
                self.sm_config == old(self).sm_config,
                blocks_executed == b,
                warps_executed == b * nw,
                threads_executed == b * tpb,
                age0 + nb * nw <= u64::MAX,
                self.warp_age_counter == age0 + b * nw,
                AnyScheduler::spec_compatible(self.scheduler@, canonical_slots),
                canonical_slots == spec_block_slots(nw, 0),
                spec_run_grid::<F, AnyScheduler>(f, cfg, sched0, age0, gmem0, 0, nb)
                    == spec_run_grid::<F, AnyScheduler>(
                    f,
                    cfg,
                    self.scheduler@,
                    age0,
                    gpu.hbm@,
                    b as int,
                    nb,
                ),
            decreases num_blocks - b,
        {
            proof {
                assert(b * nw <= b * tpb && (b + 1) * nw <= (b + 1) * tpb && (b + 1) * tpb <= nb
                    * tpb && (b + 1) * nw <= nb * nw && nb * nw <= nb * tpb && b * nw + nw == (b
                    + 1) * nw && b * tpb + tpb == (b + 1) * tpb && 0 <= b * nw && 0 <= b * tpb)
                    by (nonlinear_arith)
                    requires
                        0 <= b < nb && 1 <= nw <= tpb,
                ;
            }
            let ghost sched_b = self.scheduler@;
            let ghost gmem_b = gpu.hbm@;
            let ghost age_b = self.warp_age_counter as int;

            let block_idx = flat_to_dim3(b, config.grid_dim);

            // Select the unit with the most headroom and allocate on it.
            let sm_id = self.find_best_sm(gpu, max_blks);
            let smem = config.smem_per_block;
            let unit = &mut gpu.sms[sm_id];
            unit.allocate_block(tpb, warps_per_block, smem);

            // Fresh zero-filled per-block shared memory.
            let smem_len: usize = if smem >= 1 {
                smem as usize
            } else {
                1
            };
            let mut smem_buf = zero_vec(smem_len);

            // Build the warp slots, assigning ages in order.
            let mut warp_slots: Vec<WarpSlot> = Vec::new();
            let mut wi: u32 = 0;
            while wi < warps_per_block
                invariant
                    wi <= warps_per_block,
                    age_b == self.warp_age_counter as int,
                    age_b + warps_per_block <= u64::MAX,
                    warp_slots@.len() == wi,
                    forall|k: int|
                        0 <= k < wi ==> warp_slots@[k] == (WarpSlot {
                            warp_idx: k as usize,
                            state: WarpState::Eligible,
                            age: (age_b + k) as u64,
                        }),
                decreases warps_per_block - wi,
            {
                let age: u64 = self.warp_age_counter + wi as u64;
                warp_slots.push(WarpSlot::new(wi as usize, age));
                wi = wi + 1;
            }
            self.warp_age_counter = self.warp_age_counter + warps_per_block as u64;
            proof {
                assert(warp_slots@ =~= spec_block_slots(nw, age_b));
                assert(distinct_idxs(warp_slots@));
                assert(warp_idxs(spec_block_slots(nw, age_b)) =~= warp_idxs(canonical_slots));
                AnyScheduler::compatible_same_idxs(sched_b, canonical_slots, warp_slots@);
            }

            // Ask the scheduler for the issue order.
            let order = self.scheduler.order_warps(&warp_slots);
            let ghost sched_p = self.scheduler@;
            proof {
                assert(order@.to_multiset() == warp_idxs(warp_slots@).to_multiset());
                assert(warp_idxs(warp_slots@) =~= Seq::new(nw as nat, |i: int| i as usize));
                assert(order@.len() == nw) by {
                    assert(order@.to_multiset().len() == order@.len());
                    assert(warp_idxs(warp_slots@).to_multiset().len() == nw);
                }
                lemma_order_lane_sums(order@, tpb as int, nw);
            }

            let ghost mems_b = (smem_buf@, gpu.hbm@);
            let ghost order_seq = order@;
            let ghost sms_snap = gpu.sms@;

            // Issue the warps in order; lanes run in ascending index order.
            let n_order = order.len();
            let mut oi: usize = 0;
            while oi < n_order
                invariant
                    cfg == *config,
                    f == kernel.func,
                    oi <= n_order,
                    n_order == order_seq.len(),
                    n_order == nw,
                    order_seq == order@,
                    tpb >= 1,
                    nw == (tpb + 31) as int / 32,
                    tpb == cfg.block_dim.spec_size(),
                    cfg.block_dim.x >= 1 && cfg.block_dim.y >= 1,
                    cfg.block_dim.x * cfg.block_dim.y <= u32::MAX,
                    block_idx == spec_unflatten(b as int, cfg.grid_dim),
                    (order_seq.to_multiset() == Seq::new(
                        nw as nat,
                        |i: int| (i as usize),
                    ).to_multiset()),
                    0 <= b * tpb,
                    b * tpb + tpb <= nb * tpb <= u32::MAX,
                    warps_executed == b * nw + oi,
                    b * nw + nw <= u32::MAX,
                    threads_executed == b * tpb + sum_lanes(order_seq.take(oi as int), tpb as int),
                    forall|j: int|
                        0 <= j <= order_seq.len() ==> 0 <= sum_lanes(
                            #[trigger] order_seq.take(j),
                            tpb as int,
                        ) <= tpb,
                    spec_run_order(f, block_idx, cfg.block_dim, cfg.grid_dim, mems_b, order_seq,
                        tpb as int, 0) == spec_run_order(
                        f,
                        block_idx,
                        cfg.block_dim,
                        cfg.grid_dim,
                        (smem_buf@, gpu.hbm@),
                        order_seq,
                        tpb as int,
                        oi as int,
                    ),
                    spec_record_all::<AnyScheduler>(sched_p, order_seq, 0)
                        == spec_record_all::<AnyScheduler>(
                        self.scheduler@,
                        order_seq,
                        oi as int,
                    ),
                    AnyScheduler::spec_compatible(self.scheduler@, warp_slots@),
                    warp_slots@ == spec_block_slots(nw, age_b),
                    gpu.sms@ == sms_snap,
                    gpu.sms@.len() == old(gpu).sms@.len(),
                    gpu.l2_cache == old(gpu).l2_cache,
                    gpu.sm_config == old(gpu).sm_config,
                    gpu.hbm.size_bytes == old(gpu).hbm.size_bytes,
                    gpu.hbm.bandwidth_bps == old(gpu).hbm.bandwidth_bps,
                    self.sm_config == old(self).sm_config,
                    self.warp_age_counter == age_b + nw,
                decreases n_order - oi,
            {
                let w: usize = order[oi];
                proof {
                    // `w` is one of the block's warps, so `w < nw`.
                    let cseq = Seq::new(nw as nat, |i: int| i as usize);
                    assert(order_seq.contains(w)) by {
                        assert(order_seq[oi as int] == w);
                    }
                    assert(order_seq.to_multiset().count(w) > 0);
                    assert(cseq.to_multiset().count(w) > 0);
                    assert(cseq.contains(w));
                    let k = choose|k: int| 0 <= k < cseq.len() && (#[trigger] cseq[k]) == w;
                    assert(w as int == k);
                    assert(32 * (nw - 1) < tpb);
                    assert(32 * (w as int) < tpb) by (nonlinear_arith)
                        requires
                            w as int <= nw - 1 && 32 * (nw - 1) < tpb,
                    ;
                }
                let warp_start: usize = w * 32;
                let tpb_us: usize = tpb as usize;
                let warp_end: usize = if tpb_us >= 32 && warp_start <= tpb_us - 32 {
                    warp_start + 32
                } else {
                    tpb_us
                };
                proof {
                    assert(warp_end as int == min2(32 * (w as int) + 32, tpb as int));
                    assert(sum_lanes(order_seq.take(oi as int), tpb as int) + (warp_end
                        - warp_start) == sum_lanes(order_seq.take(oi + 1), tpb as int)) by {
                        let fsum = |acc: int, ww: usize| acc + lane_count(ww as int, tpb as int);
                        assert(order_seq.take(oi + 1).drop_last() =~= order_seq.take(oi as int));
                        assert(order_seq.take(oi + 1).last() == w);
                        assert(order_seq.take(oi + 1).fold_left(0, fsum) == fsum(
                            order_seq.take(oi as int).fold_left(0, fsum),
                            w,
                        ));
                    }
                }

                let ghost mems_ws = (smem_buf@, gpu.hbm@);
                let ghost t_ws = threads_executed;

                let mut lane: usize = warp_start;
                while lane < warp_end
                    invariant
                        cfg == *config,
                        f == kernel.func,
                        warp_start <= lane <= warp_end,
                        warp_end <= tpb,
                        warp_end as int == min2(32 * (w as int) + 32, tpb as int),
                        warp_start == 32 * (w as int),
                        tpb == cfg.block_dim.spec_size(),
                        cfg.block_dim.x >= 1 && cfg.block_dim.y >= 1,
                        cfg.block_dim.x * cfg.block_dim.y <= u32::MAX,
                        block_idx == spec_unflatten(b as int, cfg.grid_dim),
                        threads_executed == t_ws + (lane - warp_start),
                        t_ws + (warp_end - warp_start) <= u32::MAX,
                        spec_run_lanes(f, block_idx, cfg.block_dim, cfg.grid_dim, mems_ws,
                            warp_start as int, warp_end as int) == spec_run_lanes(
                            f,
                            block_idx,
                            cfg.block_dim,
                            cfg.grid_dim,
                            (smem_buf@, gpu.hbm@),
                            lane as int,
                            warp_end as int,
                        ),
                        gpu.sms@ == sms_snap,
                        gpu.sms@.len() == old(gpu).sms@.len(),
                        gpu.l2_cache == old(gpu).l2_cache,
                        gpu.sm_config == old(gpu).sm_config,
                        gpu.hbm.size_bytes == old(gpu).hbm.size_bytes,
                        gpu.hbm.bandwidth_bps == old(gpu).hbm.bandwidth_bps,
                    decreases warp_end - lane,
                {
                    let thread_idx = flat_to_dim3(lane as u32, config.block_dim);
                    let ctx = ThreadCtx {
                        thread_idx,
                        block_idx,
                        block_dim: config.block_dim,
                        grid_dim: config.grid_dim,
                    };
                    let ghost cur = (smem_buf@, gpu.hbm@);
                    kernel.func.run(&ctx, &mut smem_buf, &mut gpu.hbm);
                    proof {
                        assert(ctx == (ThreadCtx {
                            thread_idx: spec_unflatten(lane as int, cfg.block_dim),
                            block_idx,
                            block_dim: cfg.block_dim,
                            grid_dim: cfg.grid_dim,
                        }));
                        assert((smem_buf@, gpu.hbm@) == f.effect(ctx, cur.0, cur.1));
                        assert(spec_run_lanes(f, block_idx, cfg.block_dim, cfg.grid_dim, cur,
                            lane as int, warp_end as int) == spec_run_lanes(
                            f,
                            block_idx,
                            cfg.block_dim,
                            cfg.grid_dim,
                            (smem_buf@, gpu.hbm@),
                            lane + 1,
                            warp_end as int,
                        ));
                    }
                    threads_executed = threads_executed + 1;
                    lane = lane + 1;
                }

                let ghost pre_record = self.scheduler@;
                self.scheduler.record_issued(w);
                proof {
                    AnyScheduler::compatible_after_record(pre_record, warp_slots@, w);
                }
                warps_executed = warps_executed + 1;
                oi = oi + 1;
            }

            proof {
                assert(order_seq.take(n_order as int) =~= order_seq);
            }

            // Free the unit's resources after the block completes.
            let unit2 = &mut gpu.sms[sm_id];
            unit2.free_block(tpb, warps_per_block, smem);
            blocks_executed = blocks_executed + 1;

            proof {
                // this block matches its specification ...
                let step = spec_run_block::<F, AnyScheduler>(f, cfg, block_idx, sched_b, age_b,
                    gmem_b);
                assert(step.0 == self.scheduler@ && step.1 == gpu.hbm@) by {
                    assert(order_seq == AnyScheduler::spec_order(
                        sched_b,
                        spec_block_slots(nw, age_b),
                    ));
                    assert(order_seq.take(nw) =~= order_seq);
                    assert(mems_b.0 == spec_zeros(
                        if cfg.smem_per_block >= 1 {
                            cfg.smem_per_block as int
                        } else {
                            1
                        },
                    ));
                }
                // ... and advances the grid fold by one block.
                assert(spec_run_grid::<F, AnyScheduler>(f, cfg, sched_b, age0, gmem_b, b as int, nb)
                    == spec_run_grid::<F, AnyScheduler>(
                    f,
                    cfg,
                    self.scheduler@,
                    age0,
                    gpu.hbm@,
                    b as int + 1,
                    nb,
                )) by {
                    assert(age0 + (b as int) * nw == age_b);
                }
                // compatibility carries to the next block's slots
                AnyScheduler::compatible_same_idxs(self.scheduler@, warp_slots@, canonical_slots);
            }

            b = b + 1;
        }

        ExecutionStats {
            blocks_executed,
            warps_executed,
            threads_executed,
            theoretical_occupancy: occ,
            max_blocks_per_sm: max_blks,
            occupancy_limiter: limiter,
            scheduling_policy: policy_name.to_string(),
        }
    }
}

} // verus!
