//! Occupancy calculation: how many thread blocks can simultaneously reside
//! on one compute unit, given the kernel's resource requirements and the
//! unit's hardware limits, and which resource is the binding constraint.

use vstd::prelude::*;

verus! {

use crate::rat::{Rat, rat_le};

/// Hardware resource limits for one compute unit.
#[derive(Debug, Clone, Copy, PartialEq, Eq, Structural)]
pub struct SmConfig {
    /// Maximum concurrent threads per unit.
    pub max_threads: u32,
    /// Maximum concurrent warps per unit.
    pub max_warps: u32,
    /// Hard hardware cap on concurrent thread blocks per unit.
    pub max_blocks: u32,
    /// Total 32-bit registers in the unit's register file.
    pub total_regs: u32,
    /// Register allocation granularity (per warp, in registers).
    pub reg_alloc_granularity: u32,
    /// Total shared memory per unit in bytes.
    pub total_smem_bytes: u32,
    /// Shared memory allocation granularity in bytes.
    pub smem_alloc_granularity: u32,
}

impl SmConfig {
    /// The Hopper-class configuration as a spec value.
    pub open spec fn spec_h100() -> SmConfig {
        SmConfig {
            max_threads: 2048,
            max_warps: 64,
            max_blocks: 32,
            total_regs: 65536,
            reg_alloc_granularity: 256,
            total_smem_bytes: (228 * 1024) as u32,
            smem_alloc_granularity: 128,
        }
    }

    /// The Ampere-class configuration as a spec value.
    pub open spec fn spec_a100() -> SmConfig {
        SmConfig {
            max_threads: 2048,
            max_warps: 64,
            max_blocks: 32,
            total_regs: 65536,
            reg_alloc_granularity: 256,
            total_smem_bytes: (164 * 1024) as u32,
            smem_alloc_granularity: 128,
        }
    }

    /// A Hopper-class compute unit configuration.
    #[verifier::when_used_as_spec(spec_h100)]
    pub fn h100() -> (c: SmConfig)
        ensures
            c == (SmConfig {
                max_threads: 2048u32,
                max_warps: 64u32,
                max_blocks: 32u32,
                total_regs: 65536u32,
                reg_alloc_granularity: 256u32,
                total_smem_bytes: (228 * 1024) as u32,
                smem_alloc_granularity: 128u32,
            }),
    {
        SmConfig {
            max_threads: 2048,
            max_warps: 64,
            max_blocks: 32,
            total_regs: 65536,
            reg_alloc_granularity: 256,
            total_smem_bytes: 228 * 1024,
            smem_alloc_granularity: 128,
        }
    }

    /// An Ampere-class compute unit configuration.
    #[verifier::when_used_as_spec(spec_a100)]
    pub fn a100() -> (c: SmConfig)
        ensures
            c == (SmConfig {
                max_threads: 2048u32,
                max_warps: 64u32,
                max_blocks: 32u32,
                total_regs: 65536u32,
                reg_alloc_granularity: 256u32,
                total_smem_bytes: (164 * 1024) as u32,
                smem_alloc_granularity: 128u32,
            }),
    {
        SmConfig {
            max_threads: 2048,
            max_warps: 64,
            max_blocks: 32,
            total_regs: 65536,
            reg_alloc_granularity: 256,
            total_smem_bytes: 164 * 1024,
            smem_alloc_granularity: 128,
        }
    }
}

/// Resource requirements declared by a kernel at launch time.
#[derive(Debug, Clone, Copy, PartialEq, Eq, Structural)]
pub struct KernelResources {
    /// Number of threads per block.
    pub threads_per_block: u32,
    /// Registers used per thread (0 = untracked, no register pressure).
    pub regs_per_thread: u32,
    /// Shared memory bytes per block (0 = none).
    pub smem_per_block: u32,
}

/// Which resource is limiting occupancy.
#[derive(Debug, Clone, Copy, PartialEq, Eq, Structural)]
pub enum OccupancyLimiter {
    ThreadSlots,
    WarpSlots,
    RegisterFile,
    SharedMemory,
    HardwareBlockCap,
}

impl OccupancyLimiter {
    /// Human-readable name of the limiting resource.
    pub fn label(&self) -> (r: &'static str)
        ensures
            r@ == match *self {
                OccupancyLimiter::ThreadSlots => "thread slots"@,
                OccupancyLimiter::WarpSlots => "warp slots"@,
                OccupancyLimiter::RegisterFile => "register file"@,
                OccupancyLimiter::SharedMemory => "shared memory"@,
                OccupancyLimiter::HardwareBlockCap => "hardware block cap"@,
            },
    {
        match self {
            OccupancyLimiter::ThreadSlots => "thread slots",
            OccupancyLimiter::WarpSlots => "warp slots",
            OccupancyLimiter::RegisterFile => "register file",
            OccupancyLimiter::SharedMemory => "shared memory",
            OccupancyLimiter::HardwareBlockCap => "hardware block cap",
        }
    }
}

/// `v` rounded up to the next multiple of `g`; identity when `g == 0`.
pub open spec fn spec_round_up(v: int, g: int) -> int {
    if g == 0 {
        v
    } else {
        ((v + g - 1) / g) * g
    }
}

pub fn round_up(val: u32, granularity: u32) -> (r: u32)
    requires
        val + granularity <= u32::MAX + 1,
    ensures
        r == spec_round_up(val as int, granularity as int),
        r >= val,
{
    if granularity == 0 {
        return val;
    }
    proof {
        assert(granularity >= 1 && val + granularity - 1 <= u32::MAX ==> 0 <= ((val + granularity
            - 1) / (granularity as int)) * granularity <= val + granularity - 1
            && ((val + granularity - 1) / (granularity as int)) * granularity >= val)
            by (nonlinear_arith);
    }
    ((val + (granularity - 1)) / granularity) * granularity
}

/// Threads per block as used by the analyzer: at least 1.
pub open spec fn spec_threads(k: KernelResources) -> int {
    if k.threads_per_block >= 1 {
        k.threads_per_block as int
    } else {
        1
    }
}

/// Warps needed by one block: `ceil(threads / 32)`.
pub open spec fn spec_warps_per_block(k: KernelResources) -> int {
    (spec_threads(k) + 31) / 32
}

/// Upper bound on resident blocks from thread slots.
pub open spec fn spec_by_threads(k: KernelResources, sm: SmConfig) -> int {
    sm.max_threads as int / spec_threads(k)
}

/// Upper bound on resident blocks from warp slots.
pub open spec fn spec_by_warps(k: KernelResources, sm: SmConfig) -> int {
    sm.max_warps as int / spec_warps_per_block(k)
}

/// Registers consumed by one block after per-warp granularity rounding.
pub open spec fn spec_regs_per_block(k: KernelResources, sm: SmConfig) -> int {
    spec_round_up(k.regs_per_thread * 32, sm.reg_alloc_granularity as int) * spec_warps_per_block(
        k,
    )
}

/// Upper bound on resident blocks from the register file; untracked
/// register usage (0 per thread) is unbounded.
pub open spec fn spec_by_regs(k: KernelResources, sm: SmConfig) -> int {
    if k.regs_per_thread == 0 {
        u32::MAX as int
    } else if spec_regs_per_block(k, sm) == 0 {
        u32::MAX as int
    } else {
        sm.total_regs as int / spec_regs_per_block(k, sm)
    }
}

/// Upper bound on resident blocks from shared memory; a kernel using no
/// shared memory is unbounded.
pub open spec fn spec_by_smem(k: KernelResources, sm: SmConfig) -> int {
    if k.smem_per_block == 0 {
        u32::MAX as int
    } else {
        sm.total_smem_bytes as int / spec_round_up(
            k.smem_per_block as int,
            sm.smem_alloc_granularity as int,
        )
    }
}

/// The maximum number of co-resident blocks: the minimum of the five
/// independent resource bounds.
pub open spec fn spec_max_blocks(k: KernelResources, sm: SmConfig) -> int {
    min5(
        spec_by_threads(k, sm),
        spec_by_warps(k, sm),
        spec_by_regs(k, sm),
        spec_by_smem(k, sm),
        sm.max_blocks as int,
    )
}

pub open spec fn min5(a: int, b: int, c: int, d: int, e: int) -> int {
    min2(min2(min2(min2(a, b), c), d), e)
}

pub open spec fn min2(a: int, b: int) -> int {
    if a <= b {
        a
    } else {
        b
    }
}

/// The limiter reported for a given max-blocks value, with the fixed
/// tie-break priority: hardware cap, then shared memory, then registers,
/// then warp slots, then thread slots.
pub open spec fn spec_limiter(k: KernelResources, sm: SmConfig) -> OccupancyLimiter {
    let m = spec_max_blocks(k, sm);
    if m == sm.max_blocks as int {
        OccupancyLimiter::HardwareBlockCap
    } else if m == spec_by_smem(k, sm) {
        OccupancyLimiter::SharedMemory
    } else if m == spec_by_regs(k, sm) {
        OccupancyLimiter::RegisterFile
    } else if m == spec_by_warps(k, sm) {
        OccupancyLimiter::WarpSlots
    } else {
        OccupancyLimiter::ThreadSlots
    }
}

/// Compute the maximum number of thread blocks that can simultaneously
/// reside on a single compute unit, and identify the binding resource.
pub fn max_blocks_per_sm(kernel: &KernelResources, sm: &SmConfig) -> (r: (u32, OccupancyLimiter))
    requires
        kernel.regs_per_thread * 32 <= u32::MAX,
        kernel.regs_per_thread * 32 + sm.reg_alloc_granularity <= u32::MAX + 1,
        spec_regs_per_block(*kernel, *sm) <= u32::MAX,
        kernel.smem_per_block + sm.smem_alloc_granularity <= u32::MAX + 1,
    ensures
        r.0 == spec_max_blocks(*kernel, *sm),
        r.1 == spec_limiter(*kernel, *sm),
{
    let threads: u32 = if kernel.threads_per_block >= 1 {
        kernel.threads_per_block
    } else {
        1
    };
    let warps_per_block: u32 = (threads - 1) / 32 + 1;
    proof {
        assert(warps_per_block == spec_warps_per_block(*kernel)) by {
            assert((threads - 1) as int / 32 + 1 == (threads + 31) as int / 32);
        };
    }

    // Bound 1: thread slots
    let by_threads: u32 = sm.max_threads / threads;

    // Bound 2: warp slots
    let by_warps: u32 = sm.max_warps / warps_per_block;

    // Bound 3: register file
    let by_regs: u32 = if kernel.regs_per_thread == 0 {
        u32::MAX
    } else {
        let regs_per_warp = round_up(kernel.regs_per_thread * 32, sm.reg_alloc_granularity);
        proof {
            assert(regs_per_warp * warps_per_block == spec_regs_per_block(*kernel, *sm));
            assert(spec_regs_per_block(*kernel, *sm) >= 0) by {
                assert(regs_per_warp >= 0 && warps_per_block >= 1 ==> regs_per_warp
                    * warps_per_block >= 0) by (nonlinear_arith);
            };
        }
        let regs_per_block = regs_per_warp * warps_per_block;
        if regs_per_block == 0 {
            u32::MAX
        } else {
            sm.total_regs / regs_per_block
        }
    };

    // Bound 4: shared memory
    let by_smem: u32 = if kernel.smem_per_block == 0 {
        u32::MAX
    } else {
        let smem_rounded = round_up(kernel.smem_per_block, sm.smem_alloc_granularity);
        sm.total_smem_bytes / smem_rounded
    };

    // Bound 5: hardware block cap
    let by_hw: u32 = sm.max_blocks;

    let mut max: u32 = by_threads;
    if by_warps < max {
        max = by_warps;
    }
    if by_regs < max {
        max = by_regs;
    }
    if by_smem < max {
        max = by_smem;
    }
    if by_hw < max {
        max = by_hw;
    }

    let limiter = if max == by_hw {
        OccupancyLimiter::HardwareBlockCap
    } else if max == by_smem {
        OccupancyLimiter::SharedMemory
    } else if max == by_regs {
        OccupancyLimiter::RegisterFile
    } else if max == by_warps {
        OccupancyLimiter::WarpSlots
    } else {
        OccupancyLimiter::ThreadSlots
    };

    (max, limiter)
}

/// The exact theoretical occupancy: resident warps over the unit's warp
/// slots, clamped to at most 1.
pub open spec fn spec_occupancy(max_blocks: int, warps_per_block: int, max_warps: int) -> Rat {
    Rat {
        num: min2(max_blocks * warps_per_block, max_warps) as u128,
        den: max_warps as u128,
    }
}

/// Theoretical occupancy as an exact fraction in [0, 1]:
/// `resident warps / max warps per unit`, clamped to 1.
pub fn occupancy(max_blocks: u32, warps_per_block: u32, max_warps_per_sm: u32) -> (r: Rat)
    requires
        max_warps_per_sm >= 1,
    ensures
        r == spec_occupancy(max_blocks as int, warps_per_block as int, max_warps_per_sm as int),
        r.wf(),
        rat_le(Rat { num: 0u128, den: 1u128 }, r),
        rat_le(r, Rat { num: 1u128, den: 1u128 }),
{
    proof {
        assert(max_blocks * warps_per_block <= u64::MAX) by (nonlinear_arith)
            requires
                max_blocks <= u32::MAX && warps_per_block <= u32::MAX,
        ;
    }
    let resident: u64 = (max_blocks as u64) * (warps_per_block as u64);
    let num: u64 = if resident <= max_warps_per_sm as u64 {
        resident
    } else {
        max_warps_per_sm as u64
    };
    let r = Rat { num: num as u128, den: max_warps_per_sm as u128 };
    proof {
        assert(rat_le(Rat { num: 0u128, den: 1u128 }, r));
        assert(rat_le(r, Rat { num: 1u128, den: 1u128 })) by {
            assert(r.num <= r.den && r.den >= 1 ==> r.num * 1 <= 1 * r.den) by (nonlinear_arith);
        };
    }
    r
}

} // verus!
