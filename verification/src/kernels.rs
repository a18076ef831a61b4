//! Built-in kernels.
//!
//! Two small thread functions with fully specified effects: a counter
//! kernel that adds one to a 64-bit cell once per thread, and a recorder
//! kernel that appends its block coordinates to an in-memory log (one
//! entry per block), making the executor's block order observable.
//!
//! The counter kernel carries the launch-total law: folding its effect
//! over a whole launch raises the counter by exactly
//! `grid.size * block.size`.

use vstd::prelude::*;

verus! {

use crate::executor::{
    lane_count, spec_block_slots, spec_run_grid, spec_run_lanes, spec_run_order, spec_run_warp,
    spec_unflatten, sum_lanes,
};
use crate::kernel::{Dim3, LaunchConfig, ThreadCtx, ThreadFunc};
use crate::memory::{HBM, byte_at, mem_written};
use crate::occupancy::min2;
use crate::scheduler::{WarpScheduler, WarpSlot, distinct_idxs, warp_idxs};

/// 2^64: the modulus of the 64-bit counter cell.
pub const COUNTER_MODULUS: u128 = 0x1_0000_0000_0000_0000;

/// The little-endian bytes of a 64-bit value.
pub open spec fn u64_le_bytes(v: u64) -> Seq<u8> {
    seq![
        (v % 256) as u8,
        ((v / 256) % 256) as u8,
        ((v / 0x10000) % 256) as u8,
        ((v / 0x1000000) % 256) as u8,
        ((v / 0x100000000) % 256) as u8,
        ((v / 0x10000000000) % 256) as u8,
        ((v / 0x1000000000000) % 256) as u8,
        ((v / 0x100000000000000) % 256) as u8,
    ]
}

/// The 64-bit value stored little-endian at `addr` (unwritten bytes read
/// as 0).
pub open spec fn le8_val(m: Map<usize, u8>, addr: usize) -> int {
    byte_at(m, addr) + 256 * byte_at(m, (addr + 1) as usize) + 0x10000 * byte_at(
        m,
        (addr + 2) as usize,
    ) + 0x1000000 * byte_at(m, (addr + 3) as usize) + 0x100000000 * byte_at(
        m,
        (addr + 4) as usize,
    ) + 0x10000000000 * byte_at(m, (addr + 5) as usize) + 0x1000000000000 * byte_at(
        m,
        (addr + 6) as usize,
    ) + 0x100000000000000 * byte_at(m, (addr + 7) as usize)
}

/// The little-endian bytes of a 32-bit value.
pub open spec fn u32_le_bytes(v: u32) -> Seq<u8> {
    seq![
        (v % 256) as u8,
        ((v / 256) % 256) as u8,
        ((v / 0x10000) % 256) as u8,
        ((v / 0x1000000) % 256) as u8,
    ]
}

/// The 32-bit value stored little-endian at `addr`.
pub open spec fn le4_val(m: Map<usize, u8>, addr: usize) -> int {
    byte_at(m, addr) + 256 * byte_at(m, (addr + 1) as usize) + 0x10000 * byte_at(
        m,
        (addr + 2) as usize,
    ) + 0x1000000 * byte_at(m, (addr + 3) as usize)
}

/// Every little-endian 64-bit cell holds a value in `[0, 2^64)`.
pub proof fn lemma_le8_val_bounds(m: Map<usize, u8>, addr: usize)
    ensures
        0 <= le8_val(m, addr) < COUNTER_MODULUS,
{
}

/// Read the 64-bit little-endian value at `addr`.
pub fn read_u64_le(gmem: &HBM, addr: usize) -> (r: u64)
    requires
        addr + 8 <= usize::MAX,
    ensures
        r == le8_val(gmem@, addr),
{
    let b = gmem.read(addr, 8);
    let r: u64 = (b[0] as u64) + 256 * (b[1] as u64) + 0x10000 * (b[2] as u64) + 0x1000000 * (
    b[3] as u64) + 0x100000000 * (b[4] as u64) + 0x10000000000 * (b[5] as u64) + 0x1000000000000
        * (b[6] as u64) + 0x100000000000000 * (b[7] as u64);
    r
}

/// Write `v` little-endian at `addr`.
pub fn write_u64_le(gmem: &mut HBM, addr: usize, v: u64)
    requires
        addr + 8 <= usize::MAX,
    ensures
        final(gmem)@ == mem_written(old(gmem)@, addr, u64_le_bytes(v)),
        final(gmem).size_bytes == old(gmem).size_bytes,
        final(gmem).bandwidth_bps == old(gmem).bandwidth_bps,
{
    let mut bytes: Vec<u8> = Vec::new();
    bytes.push((v % 256) as u8);
    bytes.push(((v / 256) % 256) as u8);
    bytes.push(((v / 0x10000) % 256) as u8);
    bytes.push(((v / 0x1000000) % 256) as u8);
    bytes.push(((v / 0x100000000) % 256) as u8);
    bytes.push(((v / 0x10000000000) % 256) as u8);
    bytes.push(((v / 0x1000000000000) % 256) as u8);
    bytes.push(((v / 0x100000000000000) % 256) as u8);
    proof {
        assert(bytes@ =~= u64_le_bytes(v));
    }
    gmem.write(addr, bytes.as_slice());
}

/// Read the 32-bit little-endian value at `addr`.
pub fn read_u32_le(gmem: &HBM, addr: usize) -> (r: u32)
    requires
        addr + 4 <= usize::MAX,
    ensures
        r == le4_val(gmem@, addr),
{
    let b = gmem.read(addr, 4);
    let r: u32 = (b[0] as u32) + 256 * (b[1] as u32) + 0x10000 * (b[2] as u32) + 0x1000000 * (
    b[3] as u32);
    r
}

/// Write `v` little-endian at `addr`.
pub fn write_u32_le(gmem: &mut HBM, addr: usize, v: u32)
    requires
        addr + 4 <= usize::MAX,
    ensures
        final(gmem)@ == mem_written(old(gmem)@, addr, u32_le_bytes(v)),
        final(gmem).size_bytes == old(gmem).size_bytes,
        final(gmem).bandwidth_bps == old(gmem).bandwidth_bps,
{
    let mut bytes: Vec<u8> = Vec::new();
    bytes.push((v % 256) as u8);
    bytes.push(((v / 256) % 256) as u8);
    bytes.push(((v / 0x10000) % 256) as u8);
    bytes.push(((v / 0x1000000) % 256) as u8);
    proof {
        assert(bytes@ =~= u32_le_bytes(v));
    }
    gmem.write(addr, bytes.as_slice());
}

/// A 64-bit value is the weighted sum of its little-endian bytes.
proof fn lemma_u64_byte_decomposition(v: u64)
    ensures
        v == (v % 256) + 256 * ((v / 256) % 256) + 0x10000 * ((v / 0x10000) % 256) + 0x1000000 * ((
        v / 0x1000000) % 256) + 0x100000000 * ((v / 0x100000000) % 256) + 0x10000000000 * ((v
            / 0x10000000000) % 256) + 0x1000000000000 * ((v / 0x1000000000000) % 256)
            + 0x100000000000000 * ((v / 0x100000000000000) % 256),
{
    assert(v == (v % 256) + 256 * ((v / 256) % 256) + 0x10000 * ((v / 0x10000) % 256) + 0x1000000
        * ((v / 0x1000000) % 256) + 0x100000000 * ((v / 0x100000000) % 256) + 0x10000000000 * ((v
        / 0x10000000000) % 256) + 0x1000000000000 * ((v / 0x1000000000000) % 256)
        + 0x100000000000000 * ((v / 0x100000000000000) % 256)) by (bit_vector);
}

/// Writing a 64-bit value and reading it back yields the value.
#[verifier::rlimit(100)]
pub proof fn lemma_le8_round_trip(m: Map<usize, u8>, addr: usize, v: u64)
    requires
        addr + 8 <= usize::MAX,
    ensures
        le8_val(mem_written(m, addr, u64_le_bytes(v)), addr) == v,
{
    let m2 = mem_written(m, addr, u64_le_bytes(v));
    assert(byte_at(m2, addr) == u64_le_bytes(v)[0]);
    assert(byte_at(m2, (addr + 1) as usize) == u64_le_bytes(v)[1]);
    assert(byte_at(m2, (addr + 2) as usize) == u64_le_bytes(v)[2]);
    assert(byte_at(m2, (addr + 3) as usize) == u64_le_bytes(v)[3]);
    assert(byte_at(m2, (addr + 4) as usize) == u64_le_bytes(v)[4]);
    assert(byte_at(m2, (addr + 5) as usize) == u64_le_bytes(v)[5]);
    assert(byte_at(m2, (addr + 6) as usize) == u64_le_bytes(v)[6]);
    assert(byte_at(m2, (addr + 7) as usize) == u64_le_bytes(v)[7]);
    lemma_u64_byte_decomposition(v);
}

// ---------------------------------------------------------------------------
// Counter kernel
// ---------------------------------------------------------------------------

/// A kernel whose every thread adds one (mod 2^64) to the 64-bit counter
/// cell at `addr`; block shared memory is untouched. An address too close
/// to the end of the address space leaves memory unchanged.
pub struct CounterKernel {
    pub addr: usize,
}

/// The counter cell's value after one increment.
pub open spec fn spec_bumped(gmem: Map<usize, u8>, addr: usize) -> u64 {
    (((le8_val(gmem, addr) + 1) % (COUNTER_MODULUS as int)) as u64)
}

impl ThreadFunc for CounterKernel {
    open spec fn effect(&self, ctx: ThreadCtx, smem: Seq<u8>, gmem: Map<usize, u8>) -> (
        Seq<u8>,
        Map<usize, u8>,
    ) {
        if self.addr + 8 <= usize::MAX {
            (smem, mem_written(gmem, self.addr, u64_le_bytes(spec_bumped(gmem, self.addr))))
        } else {
            (smem, gmem)
        }
    }

    fn run(&self, ctx: &ThreadCtx, smem: &mut Vec<u8>, gmem: &mut HBM) {
        if self.addr <= usize::MAX - 8 {
            let v = read_u64_le(gmem, self.addr);
            let v2: u64 = if v == u64::MAX {
                0
            } else {
                v + 1
            };
            proof {
                lemma_le8_val_bounds(gmem@, self.addr);
                assert(v2 == spec_bumped(gmem@, self.addr));
            }
            write_u64_le(gmem, self.addr, v2);
        }
    }
}

// ---------------------------------------------------------------------------
// The launch-total law of the counter kernel
// ---------------------------------------------------------------------------

/// One counter-kernel thread bumps the counter by one, mod 2^64.
proof fn lemma_counter_one_step(k: CounterKernel, ctx: ThreadCtx, smem: Seq<u8>, gmem: Map<
    usize,
    u8,
>)
    requires
        k.addr + 8 <= usize::MAX,
    ensures
        ({
            let r = k.effect(ctx, smem, gmem);
            &&& r.0 == smem
            &&& le8_val(r.1, k.addr) == (le8_val(gmem, k.addr) + 1) % (COUNTER_MODULUS as int)
        }),
{
    lemma_le8_val_bounds(gmem, k.addr);
    lemma_le8_round_trip(gmem, k.addr, spec_bumped(gmem, k.addr));
}

/// Running the counter kernel over a lane range bumps the counter once
/// per lane.
#[verifier::rlimit(100)]
proof fn lemma_counter_lanes(
    k: CounterKernel,
    bid: Dim3,
    bdim: Dim3,
    gdim: Dim3,
    mems: (Seq<u8>, Map<usize, u8>),
    start: int,
    end: int,
)
    requires
        k.addr + 8 <= usize::MAX,
        end - start < COUNTER_MODULUS,
    ensures
        ({
            let r = spec_run_lanes(k, bid, bdim, gdim, mems, start, end);
            let delta = if start >= end {
                0int
            } else {
                end - start
            };
            &&& r.0 == mems.0
            &&& le8_val(r.1, k.addr) == (le8_val(mems.1, k.addr) + delta) % (
            COUNTER_MODULUS as int)
        }),
    decreases end - start,
{
    let mm = COUNTER_MODULUS as int;
    lemma_le8_val_bounds(mems.1, k.addr);
    if start >= end {
        assert(le8_val(mems.1, k.addr) % mm == le8_val(mems.1, k.addr));
    } else {
        let ctx = ThreadCtx {
            thread_idx: spec_unflatten(start, bdim),
            block_idx: bid,
            block_dim: bdim,
            grid_dim: gdim,
        };
        lemma_counter_one_step(k, ctx, mems.0, mems.1);
        let m1 = k.effect(ctx, mems.0, mems.1);
        lemma_counter_lanes(k, bid, bdim, gdim, m1, start + 1, end);
        let x = le8_val(mems.1, k.addr);
        let d = end - start - 1;
        lemma_le8_val_bounds(m1.1, k.addr);
        assert(le8_val(m1.1, k.addr) == (x + 1) % mm);
        // ((x + 1) % mm + d) % mm == (x + 1 + d) % mm
        vstd::arithmetic::div_mod::lemma_add_mod_noop(x + 1, d, mm);
        assert(d % mm == d);
        assert((((x + 1) % mm) + d) % mm == (x + 1 + d) % mm);
    }
}

/// Running the counter kernel over a block's issue order bumps the
/// counter once per live lane of every listed warp.
#[verifier::rlimit(100)]
proof fn lemma_counter_order(
    k: CounterKernel,
    bid: Dim3,
    bdim: Dim3,
    gdim: Dim3,
    mems: (Seq<u8>, Map<usize, u8>),
    order: Seq<usize>,
    tpb: int,
    i: int,
)
    requires
        k.addr + 8 <= usize::MAX,
        0 <= i <= order.len(),
        tpb >= 1,
        sum_lanes(order, tpb) < COUNTER_MODULUS,
        forall|j: int| 0 <= j <= order.len() ==> 0 <= sum_lanes(#[trigger] order.take(j), tpb),
        forall|j: int|
            0 <= j <= order.len() ==> sum_lanes(#[trigger] order.take(j), tpb) <= sum_lanes(
                order,
                tpb,
            ),
    ensures
        ({
            let r = spec_run_order(k, bid, bdim, gdim, mems, order, tpb, i);
            let delta = sum_lanes(order, tpb) - sum_lanes(order.take(i), tpb);
            &&& r.0 == mems.0
            &&& le8_val(r.1, k.addr) == (le8_val(mems.1, k.addr) + delta) % (
            COUNTER_MODULUS as int)
        }),
    decreases order.len() - i,
{
    let mm = COUNTER_MODULUS as int;
    lemma_le8_val_bounds(mems.1, k.addr);
    if i >= order.len() {
        assert(order.take(i) =~= order);
        assert(le8_val(mems.1, k.addr) % mm == le8_val(mems.1, k.addr));
    } else {
        let w = order[i] as int;
        let m1 = spec_run_warp(k, bid, bdim, gdim, mems, w, tpb);
        let dw = if 32 * w >= min2(32 * w + 32, tpb) {
            0int
        } else {
            min2(32 * w + 32, tpb) - 32 * w
        };
        lemma_counter_lanes(k, bid, bdim, gdim, mems, 32 * w, min2(32 * w + 32, tpb));
        assert(dw == lane_count(w, tpb));
        lemma_counter_order(k, bid, bdim, gdim, m1, order, tpb, i + 1);
        // prefix sums: take(i+1) extends take(i) by order[i]
        assert(order.take(i + 1).drop_last() =~= order.take(i));
        assert(order.take(i + 1).last() == order[i]);
        assert(sum_lanes(order.take(i + 1), tpb) == sum_lanes(order.take(i), tpb) + lane_count(
            w,
            tpb,
        ));
        let x = le8_val(mems.1, k.addr);
        let d2 = sum_lanes(order, tpb) - sum_lanes(order.take(i + 1), tpb);
        lemma_le8_val_bounds(m1.1, k.addr);
        vstd::arithmetic::div_mod::lemma_add_mod_noop(x + dw, d2, mm);
        assert(0 <= d2 < mm);
        assert(d2 % mm == d2);
        assert((((x + dw) % mm) + d2) % mm == (x + dw + d2) % mm);
    }
}

/// Compatibility survives any sequence of recorded issues.
proof fn lemma_record_all_compatible<S: WarpScheduler>(
    v: S::V,
    order: Seq<usize>,
    slots: Seq<WarpSlot>,
    i: int,
)
    requires
        0 <= i <= order.len(),
        S::spec_compatible(v, slots),
    ensures
        S::spec_compatible(crate::executor::spec_record_all::<S>(v, order, i), slots),
    decreases order.len() - i,
{
    if i < order.len() {
        S::compatible_after_record(v, slots, order[i]);
        lemma_record_all_compatible::<S>(S::spec_record(v, order[i]), order, slots, i + 1);
    }
}

/// The launch-total law of the counter kernel, by induction over the
/// grid: every block of the launch bumps the counter `block.size` times.
#[verifier::rlimit(100)]
proof fn lemma_counter_grid<S: WarpScheduler>(
    k: CounterKernel,
    cfg: LaunchConfig,
    sched: S::V,
    age0: int,
    gmem: Map<usize, u8>,
    b: int,
    nblocks: int,
)
    requires
        k.addr + 8 <= usize::MAX,
        1 <= cfg.block_dim.spec_size() <= u32::MAX,
        0 <= b <= nblocks,
        (nblocks - b) * cfg.block_dim.spec_size() < COUNTER_MODULUS,
        S::spec_compatible(sched, spec_block_slots((cfg.block_dim.spec_size() + 31) / 32, 0)),
    ensures
        ({
            let r = spec_run_grid::<CounterKernel, S>(k, cfg, sched, age0, gmem, b, nblocks);
            le8_val(r.1, k.addr) == (le8_val(gmem, k.addr) + (nblocks - b)
                * cfg.block_dim.spec_size()) % (COUNTER_MODULUS as int)
        }),
    decreases nblocks - b,
{
    let mm = COUNTER_MODULUS as int;
    let tpb = cfg.block_dim.spec_size();
    let nw = (tpb + 31) / 32;
    lemma_le8_val_bounds(gmem, k.addr);
    if b >= nblocks {
        assert((nblocks - b) * tpb == 0) by (nonlinear_arith)
            requires
                nblocks == b,
        ;
        assert(le8_val(gmem, k.addr) % mm == le8_val(gmem, k.addr));
    } else {
        let slots0 = spec_block_slots(nw, 0);
        let slots = spec_block_slots(nw, age0 + b * nw);
        let bid = spec_unflatten(b, cfg.grid_dim);
        assert(warp_idxs(slots0) =~= warp_idxs(slots));
        S::compatible_same_idxs(sched, slots0, slots);
        assert(distinct_idxs(slots)) by {
            assert forall|i: int, j: int|
                0 <= i < j < slots.len() implies slots[i].warp_idx != slots[j].warp_idx by {
                assert(slots[i].warp_idx == i as usize && slots[j].warp_idx == j as usize);
            }
        }
        S::order_wf(sched, slots);
        let order = S::spec_order(sched, slots);
        assert(warp_idxs(slots) =~= Seq::new(nw as nat, |i: int| i as usize));
        crate::executor::lemma_order_lane_sums(order, tpb, nw);
        assert(sum_lanes(order, tpb) == tpb);
        assert(sum_lanes(order.take(0), tpb) == 0) by {
            assert(order.take(0) =~= Seq::<usize>::empty());
        }
        let smem0 = crate::executor::spec_zeros(
            if cfg.smem_per_block >= 1 {
                cfg.smem_per_block as int
            } else {
                1
            },
        );
        assert(tpb < mm) by (nonlinear_arith)
            requires
                (nblocks - b) * tpb < mm && nblocks - b >= 1 && tpb >= 1,
        ;
        lemma_counter_order(k, bid, cfg.block_dim, cfg.grid_dim, (smem0, gmem), order, tpb, 0);
        let step = crate::executor::spec_run_block::<CounterKernel, S>(
            k,
            cfg,
            bid,
            sched,
            age0 + b * nw,
            gmem,
        );
        assert(le8_val(step.1, k.addr) == (le8_val(gmem, k.addr) + tpb) % mm);
        // the next state is still compatible
        lemma_record_all_compatible::<S>(S::spec_promote(sched, slots), order, slots, 0);
        S::compatible_same_idxs(step.0, slots, slots0);
        assert((nblocks - (b + 1)) * tpb < mm && (nblocks - (b + 1)) * tpb >= 0 && (nblocks - b)
            * tpb == (nblocks - (b + 1)) * tpb + tpb) by (nonlinear_arith)
            requires
                (nblocks - b) * tpb < mm && b < nblocks && tpb >= 1,
        ;
        lemma_counter_grid::<S>(k, cfg, step.0, age0, step.1, b + 1, nblocks);
        let x = le8_val(gmem, k.addr);
        let d2 = (nblocks - (b + 1)) * tpb;
        lemma_le8_val_bounds(step.1, k.addr);
        vstd::arithmetic::div_mod::lemma_add_mod_noop(x + tpb, d2, mm);
        assert(d2 % mm == d2);
        assert((((x + tpb) % mm) + d2) % mm == (x + tpb + d2) % mm);
    }
}

/// For any scheduling policy and any launch, a kernel that adds one to a
/// counter cell once per thread raises the counter by exactly
/// `grid.size * block.size` (mod 2^64; exact whenever the start value
/// plus the thread count stays below 2^64).
pub proof fn lemma_counter_kernel_launch<S: WarpScheduler>(
    k: CounterKernel,
    cfg: LaunchConfig,
    sched: S::V,
    age0: int,
    gmem: Map<usize, u8>,
)
    requires
        k.addr + 8 <= usize::MAX,
        1 <= cfg.block_dim.spec_size() <= u32::MAX,
        cfg.grid_dim.spec_size() >= 0,
        cfg.grid_dim.spec_size() * cfg.block_dim.spec_size() < COUNTER_MODULUS,
        S::spec_compatible(sched, spec_block_slots((cfg.block_dim.spec_size() + 31) / 32, 0)),
    ensures
        le8_val(
            spec_run_grid::<CounterKernel, S>(
                k,
                cfg,
                sched,
                age0,
                gmem,
                0,
                cfg.grid_dim.spec_size(),
            ).1,
            k.addr,
        ) == (le8_val(gmem, k.addr) + cfg.grid_dim.spec_size() * cfg.block_dim.spec_size()) % (
        COUNTER_MODULUS as int),
{
    lemma_counter_grid::<S>(k, cfg, sched, age0, gmem, 0, cfg.grid_dim.spec_size());
}

// ---------------------------------------------------------------------------
// Block-order recorder kernel
// ---------------------------------------------------------------------------

/// A kernel whose lane (0,0,0) appends its block coordinates to a log:
/// a 32-bit entry counter lives at `base`, and entry `c` occupies 12
/// bytes (bx, by, bz as little-endian u32) at `base + 4 + 12 c`. With one
/// recording thread per block, the log shows the executor's block order.
pub struct BlockRecorderKernel {
    pub base: usize,
}

/// Whether a log append fits in the address space.
pub open spec fn spec_record_fits(base: usize, c: int) -> bool {
    base + 16 + 12 * c <= usize::MAX
}

/// The device memory after one log append.
pub open spec fn spec_recorded(gmem: Map<usize, u8>, base: usize, bid: Dim3) -> Map<usize, u8> {
    let c = le4_val(gmem, base);
    let slot = (base + 4 + 12 * c) as usize;
    let m1 = mem_written(gmem, slot, u32_le_bytes(bid.x));
    let m2 = mem_written(m1, (slot + 4) as usize, u32_le_bytes(bid.y));
    let m3 = mem_written(m2, (slot + 8) as usize, u32_le_bytes(bid.z));
    mem_written(m3, base, u32_le_bytes((((c + 1) % 0x1_0000_0000) as u32)))
}

impl ThreadFunc for BlockRecorderKernel {
    open spec fn effect(&self, ctx: ThreadCtx, smem: Seq<u8>, gmem: Map<usize, u8>) -> (
        Seq<u8>,
        Map<usize, u8>,
    ) {
        if ctx.thread_idx == (Dim3 { x: 0u32, y: 0u32, z: 0u32 }) && spec_record_fits(
            self.base,
            le4_val(gmem, self.base),
        ) {
            (smem, spec_recorded(gmem, self.base, ctx.block_idx))
        } else {
            (smem, gmem)
        }
    }

    #[verifier::rlimit(100)]
    fn run(&self, ctx: &ThreadCtx, smem: &mut Vec<u8>, gmem: &mut HBM) {
        let is_lead = ctx.thread_idx.x == 0 && ctx.thread_idx.y == 0 && ctx.thread_idx.z == 0;
        if is_lead && self.base <= usize::MAX - 4 {
            let c = read_u32_le(gmem, self.base);
            if (self.base as u128) + 16 + 12 * (c as u128) <= (usize::MAX as u128) {
                let slot: usize = self.base + 4 + 12 * (c as usize);
                write_u32_le(gmem, slot, ctx.block_idx.x);
                write_u32_le(gmem, slot + 4, ctx.block_idx.y);
                write_u32_le(gmem, slot + 8, ctx.block_idx.z);
                let c2: u32 = if c == u32::MAX {
                    0
                } else {
                    c + 1
                };
                proof {
                    assert(0 <= le4_val(old(gmem)@, self.base) < 0x1_0000_0000);
                    assert(c2 == ((le4_val(old(gmem)@, self.base) + 1) % 0x1_0000_0000) as u32);
                }
                write_u32_le(gmem, self.base, c2);
                proof {
                    assert(gmem@ == spec_recorded(old(gmem)@, self.base, ctx.block_idx));
                }
            } else {
                proof {
                    assert(!spec_record_fits(self.base, le4_val(gmem@, self.base)));
                }
            }
        } else {
            proof {
                if is_lead {
                    assert(self.base > usize::MAX - 4);
                    assert(!spec_record_fits(self.base, le4_val(gmem@, self.base)));
                }
            }
        }
    }
}

} // verus!
